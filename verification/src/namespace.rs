//! The per-host network namespace: owner of the two interfaces, the
//! registered default address, and the ephemeral port allocation policy.

use std::sync::Arc;
use vstd::prelude::*;

use crate::addr::Ipv4Address;
use crate::addr::ProtocolType;
use crate::addr::SocketAddressV4;
use crate::interface::AssociationKey;
use crate::interface::NetworkInterface;
use crate::interface::PcapOptions;
use crate::interface::QDiscMode;
use crate::ports::MIN_RANDOM_PORT;
use crate::ports::NUM_RANDOM_PROBES;
use crate::ports::PortRng;
use crate::registry::bump_dereg;
use crate::registry::hostname_wf;
use crate::registry::reg_contains;
use crate::registry::reg_dereg_count;
use crate::registry::reg_index_of;
use crate::registry::reg_wf;
use crate::registry::lemma_reg_contains_push;
use crate::registry::AddressHandle;
use crate::registry::AddressRecordView;
use crate::registry::AddressRegistry;
use crate::unix::new_shared_unix_namespace;
use crate::unix::AbstractUnixNamespace;

verus! {

/// The key under which a claim of `port` toward `peer` is recorded.
pub open spec fn spec_key(protocol: ProtocolType, port: u16, peer: SocketAddressV4) -> AssociationKey {
    AssociationKey { protocol, local_port: port, peer }
}

/// Whether a bind to `bind_ip` claims the loopback interface: it does for
/// the wildcard address (which claims every interface) and for loopback
/// addresses.
pub open spec fn spec_affects_localhost(bind_ip: Ipv4Address) -> bool {
    bind_ip.spec_is_unspecified() || bind_ip.spec_is_loopback()
}

/// Whether a bind to `bind_ip` claims the routable interface: it does for
/// the wildcard address and for the namespace's own default address.
pub open spec fn spec_affects_internet(bind_ip: Ipv4Address, default_ip: Ipv4Address) -> bool {
    bind_ip.spec_is_unspecified() || (!bind_ip.spec_is_loopback() && bind_ip == default_ip)
}

/// Both interfaces' tables after an association of `bind_addr.port` toward
/// `peer_addr` is recorded: a wildcard bind claims both tables, a specific
/// bind claims the matching one, and a bind to an address of no interface
/// changes nothing.
pub open spec fn spec_associate_maps(
    lh: Map<AssociationKey, u64>,
    inet: Map<AssociationKey, u64>,
    default_ip: Ipv4Address,
    socket: u64,
    protocol: ProtocolType,
    bind_addr: SocketAddressV4,
    peer_addr: SocketAddressV4,
) -> (Map<AssociationKey, u64>, Map<AssociationKey, u64>) {
    let k = spec_key(protocol, bind_addr.port, peer_addr);
    (
        (if spec_affects_localhost(bind_addr.ip) {
            lh.insert(k, socket)
        } else {
            lh
        }),
        (if spec_affects_internet(bind_addr.ip, default_ip) {
            inet.insert(k, socket)
        } else {
            inet
        }),
    )
}

/// Both interfaces' tables after the association of `bind_addr.port` toward
/// `peer_addr` is released, following the same interface selection as
/// recording it.
pub open spec fn spec_disassociate_maps(
    lh: Map<AssociationKey, u64>,
    inet: Map<AssociationKey, u64>,
    default_ip: Ipv4Address,
    protocol: ProtocolType,
    bind_addr: SocketAddressV4,
    peer_addr: SocketAddressV4,
) -> (Map<AssociationKey, u64>, Map<AssociationKey, u64>) {
    let k = spec_key(protocol, bind_addr.port, peer_addr);
    (
        (if spec_affects_localhost(bind_addr.ip) {
            lh.remove(k)
        } else {
            lh
        }),
        (if spec_affects_internet(bind_addr.ip, default_ip) {
            inet.remove(k)
        } else {
            inet
        }),
    )
}

/// The address a namespace still has to deregister, if any.
pub open spec fn spec_pending_address(a: Option<AddressHandle>) -> Option<Ipv4Address> {
    match a {
        Some(h) => Some(h.ip),
        None => None,
    }
}

/// The registry after a namespace teardown: one deregistration of the still
/// pending default address, or nothing if teardown already ran.
pub open spec fn spec_teardown_registry(
    reg: Seq<AddressRecordView>,
    pending: Option<Ipv4Address>,
) -> Seq<AddressRecordView> {
    match pending {
        Some(ip) => bump_dereg(reg, ip),
        None => reg,
    }
}

/// A network namespace: the per-host container of network interfaces and
/// the allocator for local ports.
pub struct NetworkNamespace {
    /// The abstract UNIX socket address table, shared with the unix-socket
    /// code of this host.
    pub unix: Arc<atomic_refcell::AtomicRefCell<AbstractUnixNamespace>>,
    /// The interface bound to the loopback address.
    pub localhost: NetworkInterface,
    /// The interface bound to the host's single routable address.
    pub internet: NetworkInterface,
    /// The handle of the registered routable address; present from
    /// construction until teardown deregisters it.
    pub default_address: Option<AddressHandle>,
    /// The routable interface's address, cached for equality checks.
    pub default_ip: Ipv4Address,
}

/// Construction parameters for one interface.
struct InterfaceOptions {
    host_id: u32,
    hostname: Vec<u8>,
    ip: Ipv4Address,
    uses_router: bool,
    pcap: Option<PcapOptions>,
    qdisc: QDiscMode,
}

/// An owned copy of a byte string.
fn clone_bytes(v: &Vec<u8>) -> (r: Vec<u8>)
    ensures
        r@ == v@,
{
    let mut r: Vec<u8> = Vec::new();
    let n = v.len();
    let mut i: usize = 0;
    while i < n
        invariant
            n == v.len(),
            0 <= i <= n,
            r@ == v@.subrange(0, i as int),
        decreases n - i,
    {
        r.push(v[i]);
        proof {
            assert(r@ =~= v@.subrange(0, i as int + 1));
        }
        i = i + 1;
    }
    proof {
        assert(r@ =~= v@);
    }
    r
}

impl NetworkNamespace {
    /// The two interfaces are the fixed pair the namespace was built with:
    /// one bound to loopback, one bound to the routable default address,
    /// which is neither loopback nor the wildcard.
    pub open spec fn wf(self) -> bool {
        &&& self.localhost.wf()
        &&& self.internet.wf()
        &&& self.localhost.ip == Ipv4Address::spec_localhost()
        &&& self.internet.ip == self.default_ip
        &&& !self.default_ip.spec_is_loopback()
        &&& !self.default_ip.spec_is_unspecified()
    }

    /// A namespace before teardown: well formed and still holding the
    /// handle of its registered default address.
    pub open spec fn active(self) -> bool {
        &&& self.wf()
        &&& self.default_address matches Some(h) && h.ip == self.default_ip
    }

    /// Whether a bind of (protocol, `src`) toward `dst` would be free: a
    /// wildcard source address needs the claim to be free on both
    /// interfaces; a specific source address needs a matching interface
    /// whose table is free of the claim; an address of no interface is
    /// never available.
    pub open spec fn spec_is_available(
        self,
        protocol: ProtocolType,
        src: SocketAddressV4,
        dst: SocketAddressV4,
    ) -> bool {
        let k = spec_key(protocol, src.port, dst);
        if src.ip.spec_is_unspecified() {
            !self.localhost@.contains_key(k) && !self.internet@.contains_key(k)
        } else if src.ip.spec_is_loopback() {
            !self.localhost@.contains_key(k)
        } else if src.ip == self.default_ip {
            !self.internet@.contains_key(k)
        } else {
            false
        }
    }

    /// Register `options.ip`, build the interface bound to it, and return
    /// the interface together with the address handle.
    fn setup_net_interface(options: InterfaceOptions, registry: &mut AddressRegistry) -> (r: (
        NetworkInterface,
        AddressHandle,
    ))
        requires
            old(registry).wf(),
            !old(registry).spec_contains(options.ip),
            hostname_wf(options.hostname@),
        ensures
            r.0.wf(),
            r.0@ == Map::<AssociationKey, u64>::empty(),
            r.0.spec_config() == (
                options.host_id,
                options.ip,
                options.uses_router,
                options.pcap,
                options.qdisc,
            ),
            r.1.ip == options.ip,
            final(registry).wf(),
            final(registry)@ == old(registry)@.push(
                AddressRecordView {
                    host_id: options.host_id,
                    hostname: options.hostname@,
                    ip: options.ip,
                    dereg_count: 0,
                },
            ),
    {
        let InterfaceOptions { host_id, hostname, ip, uses_router, pcap, qdisc } = options;
        let addr = registry.register(host_id, hostname, ip);
        let interface = NetworkInterface::new(host_id, &addr, pcap, qdisc, uses_router);
        (interface, addr)
    }

    /// Build a fully initialized namespace for one host: register the
    /// loopback address and build the loopback interface, releasing that
    /// handle at once (loopback needs no deregistration); register the
    /// public address and build the routable interface, retaining its
    /// handle for teardown; and create the fresh shared UNIX address table.
    pub fn new(
        host_id: u32,
        hostname: Vec<u8>,
        public_ip: Ipv4Address,
        pcap: Option<PcapOptions>,
        qdisc: QDiscMode,
        registry: &mut AddressRegistry,
    ) -> (ns: NetworkNamespace)
        requires
            old(registry).wf(),
            !old(registry).spec_contains(Ipv4Address::spec_localhost()),
            !old(registry).spec_contains(public_ip),
            !public_ip.spec_is_loopback(),
            !public_ip.spec_is_unspecified(),
            hostname_wf(hostname@),
        ensures
            ns.active(),
            ns.default_ip == public_ip,
            ns.localhost@ == Map::<AssociationKey, u64>::empty(),
            ns.internet@ == Map::<AssociationKey, u64>::empty(),
            ns.localhost.spec_config() == (
                host_id,
                Ipv4Address::spec_localhost(),
                false,
                pcap,
                qdisc,
            ),
            ns.internet.spec_config() == (host_id, public_ip, true, pcap, qdisc),
            final(registry).wf(),
            final(registry)@ == old(registry)@.push(
                AddressRecordView {
                    host_id,
                    hostname: hostname@,
                    ip: Ipv4Address::spec_localhost(),
                    dereg_count: 0,
                },
            ).push(AddressRecordView { host_id, hostname: hostname@, ip: public_ip, dereg_count: 0 }),
    {
        let hostname_for_loopback = clone_bytes(&hostname);
        let (localhost, local_addr) = Self::setup_net_interface(
            InterfaceOptions {
                host_id,
                hostname: hostname_for_loopback,
                ip: Ipv4Address::localhost(),
                uses_router: false,
                pcap,
                qdisc,
            },
            registry,
        );
        // The loopback handle is dropped here: the interface has retained
        // what it needs, and loopback is never deregistered.
        let _ = local_addr;

        proof {
            lemma_reg_contains_push(
                old(registry)@,
                AddressRecordView {
                    host_id,
                    hostname: hostname@,
                    ip: Ipv4Address::spec_localhost(),
                    dereg_count: 0,
                },
                public_ip,
            );
        }
        let (internet, public_addr) = Self::setup_net_interface(
            InterfaceOptions { host_id, hostname, ip: public_ip, uses_router: true, pcap, qdisc },
            registry,
        );

        NetworkNamespace {
            unix: new_shared_unix_namespace(),
            localhost,
            internet,
            default_address: Some(public_addr),
            default_ip: public_ip,
        }
    }

    /// The interface bound to `addr`: the loopback interface for a loopback
    /// address, the routable interface for the default address, and none
    /// otherwise.
    pub fn interface(&self, addr: Ipv4Address) -> (r: Option<&NetworkInterface>)
        ensures
            r is Some <==> (addr.spec_is_loopback() || addr == self.default_ip),
            addr.spec_is_loopback() ==> r == Some(&self.localhost),
            !addr.spec_is_loopback() && addr == self.default_ip ==> r == Some(&self.internet),
    {
        if addr.is_loopback() {
            Some(&self.localhost)
        } else if addr == self.default_ip {
            Some(&self.internet)
        } else {
            None
        }
    }

    /// The interface bound to `addr`, for callers that must record state on
    /// it; selected exactly as by [`Self::interface`].
    pub fn interface_mut(&mut self, addr: Ipv4Address) -> (r: Option<&mut NetworkInterface>)
        ensures
            r is Some <==> (addr.spec_is_loopback() || addr == old(self).default_ip),
            addr.spec_is_loopback() ==> (r matches Some(i) && *i == old(self).localhost
                && *final(self) == (NetworkNamespace { localhost: *final(i), ..*old(self) })),
            !addr.spec_is_loopback() && addr == old(self).default_ip ==> (r matches Some(i) && *i
                == old(self).internet && *final(self) == (NetworkNamespace {
                internet: *final(i),
                ..*old(self)
            })),
            r is None ==> *final(self) == *old(self),
    {
        if addr.is_loopback() {
            Some(&mut self.localhost)
        } else if addr == self.default_ip {
            Some(&mut self.internet)
        } else {
            None
        }
    }

    /// Whether a bind of (protocol, `src`) toward `dst` is currently free,
    /// as `spec_is_available` states.
    pub fn is_interface_available(
        &self,
        protocol: ProtocolType,
        src: SocketAddressV4,
        dst: SocketAddressV4,
    ) -> (r: bool)
        requires
            self.wf(),
        ensures
            r == self.spec_is_available(protocol, src, dst),
    {
        if src.ip.is_unspecified() {
            // A wildcard bind claims the port on every interface.
            !self.localhost.is_associated(protocol, src.port, dst) && !self.internet.is_associated(
                protocol,
                src.port,
                dst,
            )
        } else {
            // An address of no interface is never available.
            match self.interface(src.ip) {
                Some(i) => !i.is_associated(protocol, src.port, dst),
                None => false,
            }
        }
    }

    /// Record that `socket` claims (protocol, `bind_addr`) toward
    /// `peer_addr`: on both interfaces for a wildcard bind address, on the
    /// matching interface for a specific one, and — a deliberate, known
    /// limitation — silently on none when no interface matches.
    pub fn associate_interface(
        &mut self,
        socket: u64,
        protocol: ProtocolType,
        bind_addr: SocketAddressV4,
        peer_addr: SocketAddressV4,
    )
        requires
            old(self).wf(),
        ensures
            final(self).wf(),
            final(self).localhost@ == spec_associate_maps(
                old(self).localhost@,
                old(self).internet@,
                old(self).default_ip,
                socket,
                protocol,
                bind_addr,
                peer_addr,
            ).0,
            final(self).internet@ == spec_associate_maps(
                old(self).localhost@,
                old(self).internet@,
                old(self).default_ip,
                socket,
                protocol,
                bind_addr,
                peer_addr,
            ).1,
            final(self).localhost.spec_config() == old(self).localhost.spec_config(),
            final(self).internet.spec_config() == old(self).internet.spec_config(),
            final(self).default_ip == old(self).default_ip,
            final(self).default_address == old(self).default_address,
            final(self).unix == old(self).unix,
    {
        if bind_addr.ip.is_unspecified() {
            // A wildcard bind claims the port on every interface.
            self.localhost.associate(socket, protocol, bind_addr.port, peer_addr);
            self.internet.associate(socket, protocol, bind_addr.port, peer_addr);
        } else if bind_addr.ip.is_loopback() {
            self.localhost.associate(socket, protocol, bind_addr.port, peer_addr);
        } else if bind_addr.ip == self.default_ip {
            self.internet.associate(socket, protocol, bind_addr.port, peer_addr);
        }
        // No matching interface: the claim is silently dropped.
    }

    /// Release the claim of (protocol, `bind_addr`) toward `peer_addr`,
    /// selecting interfaces exactly as `associate_interface` does; releasing
    /// an unclaimed tuple changes nothing.
    pub fn disassociate_interface(
        &mut self,
        protocol: ProtocolType,
        bind_addr: SocketAddressV4,
        peer_addr: SocketAddressV4,
    )
        requires
            old(self).wf(),
        ensures
            final(self).wf(),
            final(self).localhost@ == spec_disassociate_maps(
                old(self).localhost@,
                old(self).internet@,
                old(self).default_ip,
                protocol,
                bind_addr,
                peer_addr,
            ).0,
            final(self).internet@ == spec_disassociate_maps(
                old(self).localhost@,
                old(self).internet@,
                old(self).default_ip,
                protocol,
                bind_addr,
                peer_addr,
            ).1,
            final(self).localhost.spec_config() == old(self).localhost.spec_config(),
            final(self).internet.spec_config() == old(self).internet.spec_config(),
            final(self).default_ip == old(self).default_ip,
            final(self).default_address == old(self).default_address,
            final(self).unix == old(self).unix,
    {
        if bind_addr.ip.is_unspecified() {
            self.localhost.disassociate(protocol, bind_addr.port, peer_addr);
            self.internet.disassociate(protocol, bind_addr.port, peer_addr);
        } else if bind_addr.ip.is_loopback() {
            self.localhost.disassociate(protocol, bind_addr.port, peer_addr);
        } else if bind_addr.ip == self.default_ip {
            self.internet.disassociate(protocol, bind_addr.port, peer_addr);
        }
        // No matching interface: the release is silently dropped.
    }

    /// The linear fallback: scan `start, .., 65535, MIN_RANDOM_PORT, ..,
    /// start - 1` and return the first free port.
    fn linear_port_sweep(
        &self,
        protocol: ProtocolType,
        interface_ip: Ipv4Address,
        peer: SocketAddressV4,
        start: u16,
    ) -> (r: Option<u16>)
        requires
            self.wf(),
            MIN_RANDOM_PORT <= start,
        ensures
            r matches Some(p) ==> MIN_RANDOM_PORT <= p && self.spec_is_available(
                protocol,
                SocketAddressV4 { ip: interface_ip, port: p },
                peer,
            ),
            r is None ==> forall|p: u16|
                MIN_RANDOM_PORT <= p ==> !self.spec_is_available(
                    protocol,
                    SocketAddressV4 { ip: interface_ip, port: p },
                    peer,
                ),
    {
        let mut port: u16 = start;
        let mut found: Option<u16> = None;
        loop
            invariant_except_break
                self.wf(),
                MIN_RANDOM_PORT <= start,
                start <= port,
                found is None,
                forall|q: u16|
                    start <= q < port ==> !self.spec_is_available(
                        protocol,
                        SocketAddressV4 { ip: interface_ip, port: q },
                        peer,
                    ),
            ensures
                found matches Some(p) ==> MIN_RANDOM_PORT <= p && self.spec_is_available(
                    protocol,
                    SocketAddressV4 { ip: interface_ip, port: p },
                    peer,
                ),
                found is None ==> forall|q: u16|
                    start <= q ==> !self.spec_is_available(
                        protocol,
                        SocketAddressV4 { ip: interface_ip, port: q },
                        peer,
                    ),
            decreases u16::MAX - port,
        {
            if self.is_interface_available(
                protocol,
                SocketAddressV4::new(interface_ip, port),
                peer,
            ) {
                found = Some(port);
                break ;
            }
            if port == u16::MAX {
                break ;
            }
            port = port + 1;
        }
        if found.is_some() {
            return found;
        }
        let mut low: u16 = MIN_RANDOM_PORT;
        while low < start
            invariant
                self.wf(),
                MIN_RANDOM_PORT <= low,
                low <= start,
                forall|q: u16|
                    start <= q ==> !self.spec_is_available(
                        protocol,
                        SocketAddressV4 { ip: interface_ip, port: q },
                        peer,
                    ),
                forall|q: u16|
                    MIN_RANDOM_PORT <= q < low ==> !self.spec_is_available(
                        protocol,
                        SocketAddressV4 { ip: interface_ip, port: q },
                        peer,
                    ),
            decreases start - low,
        {
            if self.is_interface_available(
                protocol,
                SocketAddressV4::new(interface_ip, low),
                peer,
            ) {
                return Some(low);
            }
            low = low + 1;
        }
        None
    }

    /// Pick a free ephemeral port for (protocol, `interface_ip`) toward
    /// `peer`: up to `NUM_RANDOM_PROBES` independent uniform draws first,
    /// then a full wrap-around linear sweep from one more random start.
    /// `None` means the whole range `[MIN_RANDOM_PORT, 65535]` is taken —
    /// port exhaustion, a legitimate outcome rather than an error.
    pub fn get_random_free_port(
        &self,
        protocol: ProtocolType,
        interface_ip: Ipv4Address,
        peer: SocketAddressV4,
        rng: &mut PortRng,
    ) -> (r: Option<u16>)
        requires
            self.wf(),
        ensures
            r matches Some(p) ==> MIN_RANDOM_PORT <= p && self.spec_is_available(
                protocol,
                SocketAddressV4 { ip: interface_ip, port: p },
                peer,
            ),
            r is None ==> forall|p: u16|
                MIN_RANDOM_PORT <= p ==> !self.spec_is_available(
                    protocol,
                    SocketAddressV4 { ip: interface_ip, port: p },
                    peer,
                ),
    {
        let mut tries: u32 = 0;
        while tries < NUM_RANDOM_PROBES
            invariant
                self.wf(),
            decreases NUM_RANDOM_PROBES - tries,
        {
            let random_port = rng.draw_ephemeral();
            if self.is_interface_available(
                protocol,
                SocketAddressV4::new(interface_ip, random_port),
                peer,
            ) {
                return Some(random_port);
            }
            tries = tries + 1;
        }
        // Too many collisions: fall back to a linear sweep that is certain
        // to find a free port if one exists, from a random start to avoid
        // biasing repeated calls toward low ports.
        let start = rng.draw_ephemeral();
        self.linear_port_sweep(protocol, interface_ip, peer, start)
    }

    /// Tear the namespace down: deregister the default address from the
    /// registry and release its handle. Loopback needs no deregistration,
    /// matching construction. A namespace already torn down changes
    /// nothing, so every drop path may call this and the deregistration
    /// still happens exactly once.
    pub fn teardown(&mut self, registry: &mut AddressRegistry)
        requires
            old(registry).wf(),
            old(self).default_address matches Some(h) ==> reg_contains(old(registry)@, h.ip)
                && reg_dereg_count(old(registry)@, h.ip) < u64::MAX,
        ensures
            final(self).default_address is None,
            final(self).localhost == old(self).localhost,
            final(self).internet == old(self).internet,
            final(self).default_ip == old(self).default_ip,
            final(self).unix == old(self).unix,
            final(registry).wf(),
            final(registry)@ == spec_teardown_registry(
                old(registry)@,
                spec_pending_address(old(self).default_address),
            ),
    {
        let mut taken: Option<AddressHandle> = None;
        core::mem::swap(&mut self.default_address, &mut taken);
        match taken {
            Some(handle) => {
                registry.deregister(&handle);
                // The handle is released here, after its one deregistration.
            },
            None => {},
        }
    }
}

/// Law: over a wildcard source address, a (protocol, port, peer) tuple is
/// available exactly when it is available on the loopback interface and on
/// the routable interface independently.
pub proof fn lemma_wildcard_availability(
    ns: NetworkNamespace,
    protocol: ProtocolType,
    src: SocketAddressV4,
    dst: SocketAddressV4,
)
    requires
        ns.wf(),
        src.ip.spec_is_unspecified(),
    ensures
        ns.spec_is_available(protocol, src, dst) == (ns.spec_is_available(
            protocol,
            SocketAddressV4 { ip: Ipv4Address::spec_localhost(), port: src.port },
            dst,
        ) && ns.spec_is_available(
            protocol,
            SocketAddressV4 { ip: ns.default_ip, port: src.port },
            dst,
        )),
{
}

/// Law: associating a previously unclaimed tuple and then disassociating it
/// twice leaves both interfaces' tables exactly as if the association had
/// never been made; the second release changes nothing.
pub proof fn lemma_disassociate_twice_after_associate(
    lh: Map<AssociationKey, u64>,
    inet: Map<AssociationKey, u64>,
    default_ip: Ipv4Address,
    socket: u64,
    protocol: ProtocolType,
    bind_addr: SocketAddressV4,
    peer_addr: SocketAddressV4,
)
    requires
        !lh.contains_key(spec_key(protocol, bind_addr.port, peer_addr)),
        !inet.contains_key(spec_key(protocol, bind_addr.port, peer_addr)),
    ensures
        ({
            let (lh1, in1) = spec_associate_maps(
                lh,
                inet,
                default_ip,
                socket,
                protocol,
                bind_addr,
                peer_addr,
            );
            let (lh2, in2) = spec_disassociate_maps(
                lh1,
                in1,
                default_ip,
                protocol,
                bind_addr,
                peer_addr,
            );
            let (lh3, in3) = spec_disassociate_maps(
                lh2,
                in2,
                default_ip,
                protocol,
                bind_addr,
                peer_addr,
            );
            lh2 == lh && in2 == inet && lh3 == lh && in3 == inet
        }),
{
    let k = spec_key(protocol, bind_addr.port, peer_addr);
    assert(lh.insert(k, socket).remove(k) =~= lh);
    assert(inet.insert(k, socket).remove(k) =~= inet);
    assert(lh.remove(k) =~= lh);
    assert(inet.remove(k) =~= inet);
}

/// Law: one teardown of an active namespace deregisters its default address
/// exactly once — the address's deregistration count rises by one — and a
/// second teardown, as another drop path would perform, changes the
/// registry no further.
pub proof fn lemma_teardown_deregisters_once(reg: Seq<AddressRecordView>, ip: Ipv4Address)
    requires
        reg_wf(reg),
        reg_contains(reg, ip),
        reg_dereg_count(reg, ip) < u64::MAX,
    ensures
        ({
            let reg1 = spec_teardown_registry(reg, Some(ip));
            let reg2 = spec_teardown_registry(reg1, None::<Ipv4Address>);
            &&& reg_dereg_count(reg1, ip) == reg_dereg_count(reg, ip) + 1
            &&& reg2 == reg1
        }),
{
    let i = reg_index_of(reg, ip);
    assert(0 <= i < reg.len() && reg[i].ip == ip);
    let reg1 = spec_teardown_registry(reg, Some(ip));
    assert(reg1 == reg.update(i, AddressRecordView { dereg_count: (reg[i].dereg_count + 1) as u64, ..reg[i] }));
    assert(reg1[i].ip == ip);
    let j = reg_index_of(reg1, ip);
    assert(0 <= j < reg1.len() && reg1[j].ip == ip);
    if j != i {
        assert(reg[j].ip == ip);
        assert(false);
    }
}

} // verus!

