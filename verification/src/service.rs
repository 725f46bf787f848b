use vstd::prelude::*;

verus! {

/// The kinds of service that a device advertises.
#[derive(Clone, Copy, Debug, PartialEq, Eq, Structural)]
pub enum ServiceKind {
    Commissionable,
    CommissionableOverIpv6,
    Operational,
    Custom,
}

/// What tells one logical service from another: its kind and its instance
/// identifier. Everything else in a service is payload.
#[derive(Clone, Copy, Debug, PartialEq, Eq, Structural)]
pub struct ServiceId {
    pub kind: ServiceKind,
    pub instance_id: u64,
}

/// One thing that the device wants discovered.
#[derive(Clone, Debug)]
pub struct LogicalService {
    pub kind: ServiceKind,
    pub instance_id: u64,
    /// The instance name under which the service is announced.
    pub name: String,
    /// The service-type token, such as `_matterc`.
    pub service: String,
    /// The transport token, such as `_udp`.
    pub protocol: String,
    /// Twelve bits; read only for the commissionable kinds.
    pub discriminator: u16,
    pub vendor_id: u16,
    pub product_id: u16,
    /// 0 = not commissionable, 1 = normal, 2 = enhanced; read only for the
    /// commissionable kinds.
    pub commissioning_mode: u8,
    pub txt_kvs: Vec<(String, String)>,
    pub port: u16,
}

/// Where the advertised records point: the host's name, the address chosen
/// for advertising, and the port.
#[derive(Clone, Debug)]
pub struct HostIdentity {
    pub host_name: String,
    pub address: String,
    pub port: u16,
}

/// No key occurs twice.
pub open spec fn unique_keys(kvs: Seq<(Seq<char>, Seq<char>)>) -> bool {
    forall|i: int, j: int| 0 <= i < j < kvs.len() ==> (#[trigger] kvs[i]).0 != (#[trigger] kvs[j]).0
}

/// A sequence of key/value pairs as sequences of characters.
pub open spec fn txt_view(kvs: Seq<(String, String)>) -> Seq<(Seq<char>, Seq<char>)> {
    Seq::new(kvs.len(), |i: int| (kvs[i].0@, kvs[i].1@))
}

/// A logical service as plain values.
pub struct LogicalServiceView {
    pub kind: ServiceKind,
    pub instance_id: u64,
    pub name: Seq<char>,
    pub service: Seq<char>,
    pub protocol: Seq<char>,
    pub discriminator: u16,
    pub vendor_id: u16,
    pub product_id: u16,
    pub commissioning_mode: u8,
    pub txt_kvs: Seq<(Seq<char>, Seq<char>)>,
    pub port: u16,
}

impl LogicalServiceView {
    /// The identity under which the service is tracked.
    pub open spec fn id(self) -> ServiceId {
        ServiceId { kind: self.kind, instance_id: self.instance_id }
    }

    /// Whether the service is of a kind that carries commissioning subtypes.
    pub open spec fn is_commissionable(self) -> bool {
        self.kind == ServiceKind::Commissionable || self.kind
            == ServiceKind::CommissionableOverIpv6
    }
}

impl View for LogicalService {
    type V = LogicalServiceView;

    open spec fn view(&self) -> LogicalServiceView {
        LogicalServiceView {
            kind: self.kind,
            instance_id: self.instance_id,
            name: self.name@,
            service: self.service@,
            protocol: self.protocol@,
            discriminator: self.discriminator,
            vendor_id: self.vendor_id,
            product_id: self.product_id,
            commissioning_mode: self.commissioning_mode,
            txt_kvs: txt_view(self.txt_kvs@),
            port: self.port,
        }
    }
}

/// A host identity as plain values.
pub struct HostIdentityView {
    pub host_name: Seq<char>,
    pub address: Seq<char>,
    pub port: u16,
}

impl View for HostIdentity {
    type V = HostIdentityView;

    open spec fn view(&self) -> HostIdentityView {
        HostIdentityView { host_name: self.host_name@, address: self.address@, port: self.port }
    }
}

impl LogicalService {
    /// The identity under which the service is tracked.
    pub fn id(&self) -> (r: ServiceId)
        ensures
            r == self@.id(),
    {
        ServiceId { kind: self.kind, instance_id: self.instance_id }
    }

    /// Whether every TXT key of the service occurs once.
    pub fn has_unique_keys(&self) -> (r: bool)
        ensures
            r == unique_keys(self@.txt_kvs),
    {
        let ghost kvs = self@.txt_kvs;
        let mut j: usize = 0;
        while j < self.txt_kvs.len()
            invariant
                j <= self.txt_kvs.len(),
                kvs == txt_view(self.txt_kvs@),
                forall|a: int, b: int| 0 <= a < b < j ==> (#[trigger] kvs[a]).0 != (#[trigger] kvs[b]).0,
            decreases self.txt_kvs.len() - j,
        {
            let mut i: usize = 0;
            while i < j
                invariant
                    i <= j < self.txt_kvs.len(),
                    kvs == txt_view(self.txt_kvs@),
                    forall|a: int| 0 <= a < i ==> (#[trigger] kvs[a]).0 != kvs[j as int].0,
                decreases j - i,
            {
                if self.txt_kvs[i].0 == self.txt_kvs[j].0 {
                    assert(kvs[i as int].0 == kvs[j as int].0);
                    return false;
                }
                i += 1;
            }
            j += 1;
        }
        true
    }

    /// Whether the service is of a kind that carries commissioning subtypes.
    pub fn is_commissionable(&self) -> (r: bool)
        ensures
            r == self@.is_commissionable(),
    {
        match self.kind {
            ServiceKind::Commissionable => true,
            ServiceKind::CommissionableOverIpv6 => true,
            ServiceKind::Operational => false,
            ServiceKind::Custom => false,
        }
    }
}

/// Copies a list of key/value pairs.
pub fn clone_txt(kvs: &Vec<(String, String)>) -> (r: Vec<(String, String)>)
    ensures
        txt_view(r@) == txt_view(kvs@),
{
    let mut out: Vec<(String, String)> = Vec::new();
    let mut i: usize = 0;
    while i < kvs.len()
        invariant
            i <= kvs.len(),
            out.len() == i,
            forall|j: int| 0 <= j < i ==> (#[trigger] out[j]).0@ == kvs[j].0@ && out[j].1@ == kvs[j].1@,
        decreases kvs.len() - i,
    {
        let k = kvs[i].0.clone();
        let v = kvs[i].1.clone();
        out.push((k, v));
        i += 1;
    }
    assert(txt_view(out@) =~= txt_view(kvs@));
    out
}

} // verus!
