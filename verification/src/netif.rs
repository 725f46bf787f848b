use crate::error::ErrorCode;
use crate::hwaddr::{octet, parse_hardware_address, well_formed};
use vstd::prelude::*;

verus! {

/// The kinds of link that an interface can be.
#[derive(Clone, Copy, Debug, PartialEq, Eq, Structural)]
pub enum InterfaceTypeEnum {
    Unspecified,
    WiFi,
    Ethernet,
    Thread,
}

/// An IP address as its bits, most significant byte first.
#[derive(Clone, Copy, Debug, PartialEq, Eq, Structural)]
pub enum IpAddress {
    V4(u32),
    V6(u128),
}

/// One interface as the host reports it.
#[derive(Debug)]
pub struct RawInterface {
    pub name: String,
    /// The hardware address in text, where the host knows one.
    pub mac_addr: Option<String>,
    /// The interface's addresses in the order of discovery.
    pub addr: Vec<IpAddress>,
    pub index: u32,
}

/// A reported interface as plain values.
pub struct RawInterfaceView {
    pub name: Seq<char>,
    pub mac_addr: Option<Seq<char>>,
    pub addr: Seq<IpAddress>,
    pub index: u32,
}

impl View for RawInterface {
    type V = RawInterfaceView;

    open spec fn view(&self) -> RawInterfaceView {
        RawInterfaceView {
            name: self.name@,
            mac_addr: match self.mac_addr {
                Some(m) => Some(m@),
                None => None,
            },
            addr: self.addr@,
            index: self.index,
        }
    }
}

/// The validated facts of one interface.
#[derive(Debug)]
pub struct NetworkInterfaceWindows {
    pub name: String,
    pub operational: bool,
    pub offprem_svc_reachable_ipv4: Option<bool>,
    pub offprem_svc_reachable_ipv6: Option<bool>,
    pub hw_addr: [u8; 8],
    pub ipv4_addr: Vec<u32>,
    pub ipv6_addr: Vec<u128>,
    pub netif_type: InterfaceTypeEnum,
    pub index: u32,
}

/// The facts of an interface as plain values; `NetworkInterfaceWindows` and
/// `NetifInfo` both view as this.
pub struct NetifView {
    pub name: Seq<char>,
    pub operational: bool,
    pub offprem_svc_reachable_ipv4: Option<bool>,
    pub offprem_svc_reachable_ipv6: Option<bool>,
    pub hw_addr: Seq<u8>,
    pub ipv4_addrs: Seq<u32>,
    pub ipv6_addrs: Seq<u128>,
    pub netif_type: InterfaceTypeEnum,
    pub netif_index: u32,
}

impl View for NetworkInterfaceWindows {
    type V = NetifView;

    open spec fn view(&self) -> NetifView {
        NetifView {
            name: self.name@,
            operational: self.operational,
            offprem_svc_reachable_ipv4: self.offprem_svc_reachable_ipv4,
            offprem_svc_reachable_ipv6: self.offprem_svc_reachable_ipv6,
            hw_addr: self.hw_addr@,
            ipv4_addrs: self.ipv4_addr@,
            ipv6_addrs: self.ipv6_addr@,
            netif_type: self.netif_type,
            netif_index: self.index,
        }
    }
}

/// The facts of one interface as a diagnostics consumer reads them.
#[derive(Debug)]
pub struct NetifInfo<'a> {
    pub name: &'a str,
    pub operational: bool,
    pub offprem_svc_reachable_ipv4: Option<bool>,
    pub offprem_svc_reachable_ipv6: Option<bool>,
    pub hw_addr: &'a [u8; 8],
    pub ipv4_addrs: &'a [u32],
    pub ipv6_addrs: &'a [u128],
    pub netif_type: InterfaceTypeEnum,
    pub netif_index: u32,
}

impl<'a> View for NetifInfo<'a> {
    type V = NetifView;

    open spec fn view(&self) -> NetifView {
        NetifView {
            name: self.name@,
            operational: self.operational,
            offprem_svc_reachable_ipv4: self.offprem_svc_reachable_ipv4,
            offprem_svc_reachable_ipv6: self.offprem_svc_reachable_ipv6,
            hw_addr: self.hw_addr@,
            ipv4_addrs: self.ipv4_addrs@,
            ipv6_addrs: self.ipv6_addrs@,
            netif_type: self.netif_type,
            netif_index: self.netif_index,
        }
    }
}

/// The IPv4 addresses among `addrs`, in their order.
pub open spec fn ipv4_of(addrs: Seq<IpAddress>) -> Seq<u32>
    decreases addrs.len(),
{
    if addrs.len() == 0 {
        Seq::empty()
    } else {
        match addrs.last() {
            IpAddress::V4(a) => ipv4_of(addrs.drop_last()).push(a),
            IpAddress::V6(_) => ipv4_of(addrs.drop_last()),
        }
    }
}

/// The IPv6 addresses among `addrs`, in their order.
pub open spec fn ipv6_of(addrs: Seq<IpAddress>) -> Seq<u128>
    decreases addrs.len(),
{
    if addrs.len() == 0 {
        Seq::empty()
    } else {
        match addrs.last() {
            IpAddress::V4(_) => ipv6_of(addrs.drop_last()),
            IpAddress::V6(a) => ipv6_of(addrs.drop_last()).push(a),
        }
    }
}

/// The eight bytes that a well-formed hardware address writes.
pub open spec fn octets(s: Seq<char>) -> Seq<u8> {
    Seq::new(8, |k: int| octet(s, k) as u8)
}

/// Whether an interface as reported has a usable hardware address.
pub open spec fn reportable(raw: RawInterfaceView) -> bool {
    raw.mac_addr is Some && well_formed(raw.mac_addr->0)
}

/// The facts of a reportable interface. An interface that the host reports
/// is taken to be operational, and its link type to be Wi-Fi.
pub open spec fn facts_of(raw: RawInterfaceView) -> NetifView {
    NetifView {
        name: raw.name,
        operational: true,
        offprem_svc_reachable_ipv4: None,
        offprem_svc_reachable_ipv6: None,
        hw_addr: octets(raw.mac_addr->0),
        ipv4_addrs: ipv4_of(raw.addr),
        ipv6_addrs: ipv6_of(raw.addr),
        netif_type: InterfaceTypeEnum::WiFi,
        netif_index: raw.index,
    }
}

/// The facts of the reportable interfaces among `raws`, in their order.
pub open spec fn collected(raws: Seq<RawInterfaceView>) -> Seq<NetifView>
    decreases raws.len(),
{
    if raws.len() == 0 {
        Seq::empty()
    } else if reportable(raws.last()) {
        collected(raws.drop_last()).push(facts_of(raws.last()))
    } else {
        collected(raws.drop_last())
    }
}

/// The views of a sequence of raw interfaces.
pub open spec fn raws_view(raws: Seq<RawInterface>) -> Seq<RawInterfaceView> {
    Seq::new(raws.len(), |i: int| raws[i]@)
}

/// The views of a sequence of interface facts.
pub open spec fn facts_view(facts: Seq<NetworkInterfaceWindows>) -> Seq<NetifView> {
    Seq::new(facts.len(), |i: int| facts[i]@)
}

/// Splits addresses by IP version, keeping the order within each version.
pub fn partition_addresses(addrs: &Vec<IpAddress>) -> (r: (Vec<u32>, Vec<u128>))
    ensures
        r.0@ == ipv4_of(addrs@),
        r.1@ == ipv6_of(addrs@),
{
    let mut v4: Vec<u32> = Vec::new();
    let mut v6: Vec<u128> = Vec::new();
    let mut i: usize = 0;
    while i < addrs.len()
        invariant
            i <= addrs.len(),
            v4@ == ipv4_of(addrs@.take(i as int)),
            v6@ == ipv6_of(addrs@.take(i as int)),
        decreases addrs.len() - i,
    {
        assert(addrs@.take(i as int + 1).drop_last() =~= addrs@.take(i as int));
        match addrs[i] {
            IpAddress::V4(a) => {
                v4.push(a);
            },
            IpAddress::V6(a) => {
                v6.push(a);
            },
        }
        i += 1;
    }
    assert(addrs@.take(i as int) =~= addrs@);
    (v4, v6)
}

impl NetworkInterfaceWindows {
    /// Validates one interface as the host reports it. An interface with a
    /// missing or malformed hardware address is answered with
    /// `InvalidHardwareAddress`.
    pub fn from_raw(raw: &RawInterface) -> (r: Result<NetworkInterfaceWindows, ErrorCode>)
        ensures
            r is Ok <==> reportable(raw@),
            r is Ok ==> r->Ok_0@ == facts_of(raw@),
            r is Err ==> r->Err_0 == ErrorCode::InvalidHardwareAddress,
    {
        let hw_addr = match &raw.mac_addr {
            None => {
                return Err(ErrorCode::InvalidHardwareAddress);
            },
            Some(text) => match parse_hardware_address(text.as_str()) {
                Err(e) => {
                    return Err(e);
                },
                Ok(bytes) => bytes,
            },
        };
        let (ipv4_addr, ipv6_addr) = partition_addresses(&raw.addr);
        let facts = NetworkInterfaceWindows {
            name: raw.name.clone(),
            operational: true,
            offprem_svc_reachable_ipv4: None,
            offprem_svc_reachable_ipv6: None,
            hw_addr,
            ipv4_addr,
            ipv6_addr,
            netif_type: InterfaceTypeEnum::WiFi,
            index: raw.index,
        };
        assert(facts.hw_addr@ =~= octets(raw@.mac_addr->0));
        Ok(facts)
    }

    /// The facts as a diagnostics consumer reads them, borrowed from `self`.
    pub fn to_net_info(&self) -> (r: Result<NetifInfo<'_>, ErrorCode>)
        ensures
            r is Ok,
            r->Ok_0@ == self@,
    {
        Ok(
            NetifInfo {
                name: self.name.as_str(),
                operational: self.operational,
                offprem_svc_reachable_ipv4: self.offprem_svc_reachable_ipv4,
                offprem_svc_reachable_ipv6: self.offprem_svc_reachable_ipv6,
                hw_addr: &self.hw_addr,
                ipv4_addrs: self.ipv4_addr.as_slice(),
                ipv6_addrs: self.ipv6_addr.as_slice(),
                netif_type: self.netif_type,
                netif_index: self.index,
            },
        )
    }
}

/// Whether `f`, shown an interface with the given facts, may answer `answer`.
pub open spec fn answers<F: Fn(&NetifInfo) -> Result<(), ErrorCode>>(
    f: F,
    facts: NetifView,
    answer: Result<(), ErrorCode>,
) -> bool {
    exists|info: NetifInfo| info@ == facts && f.ensures((&info,), answer)
}

/// The interfaces of the host as they were enumerated for one query.
#[derive(Debug)]
pub struct WindowsNetnitfs {
    pub interfaces: Vec<RawInterface>,
}

impl WindowsNetnitfs {
    /// Wraps one enumeration of the host's interfaces.
    pub fn new(interfaces: Vec<RawInterface>) -> (r: Self)
        ensures
            r.interfaces == interfaces,
    {
        WindowsNetnitfs { interfaces }
    }

    /// The facts of every interface that has a usable hardware address, in
    /// the order of enumeration. The others are left out.
    pub fn get(&self) -> (r: Vec<NetworkInterfaceWindows>)
        ensures
            facts_view(r@) == collected(raws_view(self.interfaces@)),
    {
        let ghost raws = raws_view(self.interfaces@);
        let mut out: Vec<NetworkInterfaceWindows> = Vec::new();
        let mut i: usize = 0;
        while i < self.interfaces.len()
            invariant
                i <= self.interfaces.len(),
                raws == raws_view(self.interfaces@),
                facts_view(out@) == collected(raws.take(i as int)),
            decreases self.interfaces.len() - i,
        {
            assert(raws.take(i as int + 1).drop_last() =~= raws.take(i as int));
            assert(raws.take(i as int + 1).last() == self.interfaces[i as int]@);
            let ghost listed = out@;
            match NetworkInterfaceWindows::from_raw(&self.interfaces[i]) {
                Ok(facts) => {
                    out.push(facts);
                    assert(facts_view(out@) =~= facts_view(listed).push(facts@));
                },
                Err(_) => {},
            }
            i += 1;
        }
        assert(raws.take(i as int) =~= raws);
        out
    }

    /// Shows the facts of every reportable interface to `f`, in the order of
    /// enumeration, until `f` answers with an error. That error is handed
    /// back, and the interfaces after it are not shown.
    pub fn netifs<F: Fn(&NetifInfo) -> Result<(), ErrorCode>>(&self, f: F) -> (r: Result<(), ErrorCode>)
        requires
            forall|info: NetifInfo| f.requires((&info,)),
        ensures
            match r {
                Ok(_) => forall|i: int|
                    0 <= i < collected(raws_view(self.interfaces@)).len() ==> answers(
                        f,
                        #[trigger] collected(raws_view(self.interfaces@))[i],
                        Ok(()),
                    ),
                Err(e) => exists|k: int|
                    0 <= k < collected(raws_view(self.interfaces@)).len() && answers(
                        f,
                        #[trigger] collected(raws_view(self.interfaces@))[k],
                        Err(e),
                    ) && forall|i: int|
                        0 <= i < k ==> answers(
                            f,
                            #[trigger] collected(raws_view(self.interfaces@))[i],
                            Ok(()),
                        ),
            },
    {
        let facts = self.get();
        let ghost shown = collected(raws_view(self.interfaces@));
        let mut k: usize = 0;
        while k < facts.len()
            invariant
                k <= facts.len(),
                shown == facts_view(facts@),
                shown == collected(raws_view(self.interfaces@)),
                forall|info: NetifInfo| f.requires((&info,)),
                forall|i: int| 0 <= i < k ==> answers(f, #[trigger] shown[i], Ok(())),
            decreases facts.len() - k,
        {
            let info = match facts[k].to_net_info() {
                Ok(info) => info,
                Err(e) => {
                    return Err(e);
                },
            };
            let answer = f(&info);
            assert(info@ == shown[k as int]);
            assert(answers(f, shown[k as int], answer));
            match answer {
                Ok(unit) => {
                    assert(unit == ());
                    assert(answer == Ok::<(), ErrorCode>(()));
                },
                Err(e) => {
                    return Err(e);
                },
            }
            k += 1;
        }
        Ok(())
    }
}

} // verus!
