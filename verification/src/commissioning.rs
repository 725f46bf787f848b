use crate::decimal::{decimal, push_decimal};
use crate::records::{build, main_record, records_view, subtype_records, subtype_tokens, Record};
use crate::service::{txt_view, HostIdentity, HostIdentityView, LogicalService, LogicalServiceView, ServiceKind};
use vstd::prelude::*;
use vstd::string::*;

verus! {

/// What a node that awaits commissioning announces of itself. The same
/// values go into its onboarding payload.
#[derive(Clone, Debug)]
pub struct MatterConfig {
    /// Twelve bits.
    pub discriminator: u16,
    /// Twenty-seven bits; never announced.
    pub passcode: u32,
    pub vendor_id: u16,
    pub product_id: u16,
    pub instance_name: String,
    pub host_name: String,
    pub ip_address: String,
    pub port: u16,
}

/// A configuration as plain values.
pub struct MatterConfigView {
    pub discriminator: u16,
    pub passcode: u32,
    pub vendor_id: u16,
    pub product_id: u16,
    pub instance_name: Seq<char>,
    pub host_name: Seq<char>,
    pub ip_address: Seq<char>,
    pub port: u16,
}

impl View for MatterConfig {
    type V = MatterConfigView;

    open spec fn view(&self) -> MatterConfigView {
        MatterConfigView {
            discriminator: self.discriminator,
            passcode: self.passcode,
            vendor_id: self.vendor_id,
            product_id: self.product_id,
            instance_name: self.instance_name@,
            host_name: self.host_name@,
            ip_address: self.ip_address@,
            port: self.port,
        }
    }
}

/// The value of the `VP` key: vendor and product identifiers in decimal,
/// joined by `+`.
pub open spec fn vendor_product(vendor_id: u16, product_id: u16) -> Seq<char> {
    decimal(vendor_id as nat) + seq!['+'] + decimal(product_id as nat)
}

/// The TXT pairs of a node that awaits commissioning: its discriminator,
/// normal commissioning mode, vendor and product, device name, device type
/// and the two session intervals.
pub open spec fn commissioning_txt(c: MatterConfigView) -> Seq<(Seq<char>, Seq<char>)> {
    seq![
        ("D"@, decimal((c.discriminator & 0xFFF) as nat)),
        ("CM"@, "1"@),
        ("VP"@, vendor_product(c.vendor_id, c.product_id)),
        ("DN"@, "RustMatterNode"@),
        ("DT"@, "1"@),
        ("SII"@, "5000"@),
        ("SAI"@, "300"@),
    ]
}

/// The commissionable service that a configuration announces under the
/// given instance identifier.
pub open spec fn commissioning_service(c: MatterConfigView, instance_id: u64) -> LogicalServiceView {
    LogicalServiceView {
        kind: ServiceKind::Commissionable,
        instance_id,
        name: c.instance_name,
        service: "_matterc"@,
        protocol: "_udp"@,
        discriminator: c.discriminator,
        vendor_id: c.vendor_id,
        product_id: c.product_id,
        commissioning_mode: 1,
        txt_kvs: commissioning_txt(c),
        port: c.port,
    }
}

/// The host that a configuration's records point at.
pub open spec fn commissioning_host(c: MatterConfigView) -> HostIdentityView {
    HostIdentityView { host_name: c.host_name, address: c.ip_address, port: c.port }
}

fn pair(key: &str, value: String) -> (r: (String, String))
    ensures
        r.0@ == key@,
        r.1@ == value@,
{
    (String::from_str(key), value)
}

impl MatterConfig {
    /// The TXT pairs that the configuration announces.
    pub fn txt_kvs(&self) -> (r: Vec<(String, String)>)
        ensures
            txt_view(r@) == commissioning_txt(self@),
    {
        let mut d = String::new();
        push_decimal(&mut d, self.discriminator & 0xFFF);
        assert(d@ =~= decimal((self.discriminator & 0xFFF) as nat));
        let mut vp = String::new();
        push_decimal(&mut vp, self.vendor_id);
        proof {
            reveal_strlit("+");
        }
        vp.append("+");
        push_decimal(&mut vp, self.product_id);
        assert(vp@ =~= vendor_product(self.vendor_id, self.product_id));
        let mut out: Vec<(String, String)> = Vec::new();
        out.push(pair("D", d));
        out.push(pair("CM", String::from_str("1")));
        out.push(pair("VP", vp));
        out.push(pair("DN", String::from_str("RustMatterNode")));
        out.push(pair("DT", String::from_str("1")));
        out.push(pair("SII", String::from_str("5000")));
        out.push(pair("SAI", String::from_str("300")));
        assert(txt_view(out@) =~= commissioning_txt(self@));
        out
    }

    /// The commissionable service that the configuration announces.
    pub fn service(&self, instance_id: u64) -> (r: LogicalService)
        ensures
            r@ == commissioning_service(self@, instance_id),
    {
        LogicalService {
            kind: ServiceKind::Commissionable,
            instance_id,
            name: self.instance_name.clone(),
            service: String::from_str("_matterc"),
            protocol: String::from_str("_udp"),
            discriminator: self.discriminator,
            vendor_id: self.vendor_id,
            product_id: self.product_id,
            commissioning_mode: 1,
            txt_kvs: self.txt_kvs(),
            port: self.port,
        }
    }

    /// The host that the configuration's records point at.
    pub fn host(&self) -> (r: HostIdentity)
        ensures
            r@ == commissioning_host(self@),
    {
        HostIdentity {
            host_name: self.host_name.clone(),
            address: self.ip_address.clone(),
            port: self.port,
        }
    }
}

/// The records that announce a node awaiting commissioning: the main record
/// of `_matterc._udp` and the subtypes for its long and short discriminator,
/// its commissioning mode and its vendor.
pub fn commissioning_records(config: &MatterConfig) -> (r: (Record, Vec<Record>))
    ensures
        r.0@ == main_record(commissioning_service(config@, 0), commissioning_host(config@)),
        records_view(r.1@) == subtype_records(
            commissioning_service(config@, 0),
            commissioning_host(config@),
        ),
        r.1@.len() == 4,
{
    let r = build(&config.service(0), &config.host());
    assert(subtype_tokens(commissioning_service(config@, 0)).len() == 4);
    assert(records_view(r.1@).len() == 4);
    r
}

} // verus!
