use crate::decimal::{decimal, push_decimal};
use crate::service::{clone_txt, txt_view, HostIdentity, HostIdentityView, LogicalService, LogicalServiceView};
use vstd::prelude::*;
use vstd::string::*;

verus! {

/// One DNS-SD record as the registrar takes it.
#[derive(Debug)]
pub struct Record {
    /// The full service type, `<type>.<protocol>.local.` for a main record
    /// and `<token>._sub.<type>.<protocol>.local.` for a subtype.
    pub name: String,
    pub instance: String,
    pub host: String,
    pub address: String,
    pub port: u16,
    pub txt_kvs: Vec<(String, String)>,
}

/// A record as plain values.
pub struct RecordView {
    pub name: Seq<char>,
    pub instance: Seq<char>,
    pub host: Seq<char>,
    pub address: Seq<char>,
    pub port: u16,
    pub txt_kvs: Seq<(Seq<char>, Seq<char>)>,
}

impl View for Record {
    type V = RecordView;

    open spec fn view(&self) -> RecordView {
        RecordView {
            name: self.name@,
            instance: self.instance@,
            host: self.host@,
            address: self.address@,
            port: self.port,
            txt_kvs: txt_view(self.txt_kvs@),
        }
    }
}

/// The views of a sequence of records.
pub open spec fn records_view(rs: Seq<Record>) -> Seq<RecordView> {
    Seq::new(rs.len(), |i: int| rs[i]@)
}

/// `.local.`
pub open spec fn local_suffix() -> Seq<char> {
    seq!['.', 'l', 'o', 'c', 'a', 'l', '.']
}

/// `._sub.`
pub open spec fn sub_infix() -> Seq<char> {
    seq!['.', '_', 's', 'u', 'b', '.']
}

/// The name of a main record: `<type>.<protocol>.local.`
pub open spec fn main_name(service: Seq<char>, protocol: Seq<char>) -> Seq<char> {
    service + seq!['.'] + protocol + local_suffix()
}

/// The name of a subtype record: `<token>._sub.<main name>`
pub open spec fn subtype_name(token: Seq<char>, main: Seq<char>) -> Seq<char> {
    token + sub_infix() + main
}

/// `_L` and the twelve-bit discriminator in decimal.
pub open spec fn long_token(discriminator: u16) -> Seq<char> {
    seq!['_', 'L'] + decimal((discriminator & 0xFFF) as nat)
}

/// `_S` and the upper four of the discriminator's twelve bits in decimal.
pub open spec fn short_token(discriminator: u16) -> Seq<char> {
    seq!['_', 'S'] + decimal(((discriminator >> 8) & 0xF) as nat)
}

/// `_CM`
pub open spec fn mode_token() -> Seq<char> {
    seq!['_', 'C', 'M']
}

/// `_V` and the vendor identifier in decimal.
pub open spec fn vendor_token(vendor_id: u16) -> Seq<char> {
    seq!['_', 'V'] + decimal(vendor_id as nat)
}

/// The subtype tokens of a service, in the order in which they are
/// advertised. Only the commissionable kinds have any, and the mode token is
/// among them only while commissioning is open.
pub open spec fn subtype_tokens(s: LogicalServiceView) -> Seq<Seq<char>> {
    if !s.is_commissionable() {
        seq![]
    } else if s.commissioning_mode != 0 {
        seq![
            long_token(s.discriminator),
            short_token(s.discriminator),
            mode_token(),
            vendor_token(s.vendor_id),
        ]
    } else {
        seq![long_token(s.discriminator), short_token(s.discriminator), vendor_token(s.vendor_id)]
    }
}

/// The record of the given name for a service on a host.
pub open spec fn record_for(name: Seq<char>, s: LogicalServiceView, h: HostIdentityView) -> RecordView {
    RecordView {
        name,
        instance: s.name,
        host: h.host_name,
        address: h.address,
        port: h.port,
        txt_kvs: s.txt_kvs,
    }
}

/// The main record of a service on a host.
pub open spec fn main_record(s: LogicalServiceView, h: HostIdentityView) -> RecordView {
    record_for(main_name(s.service, s.protocol), s, h)
}

/// The subtype records of a service on a host, one per subtype token.
pub open spec fn subtype_records(s: LogicalServiceView, h: HostIdentityView) -> Seq<RecordView> {
    let tokens = subtype_tokens(s);
    Seq::new(
        tokens.len(),
        |i: int| record_for(subtype_name(tokens[i], main_name(s.service, s.protocol)), s, h),
    )
}

/// Builds the name of a main record.
pub fn build_main_name(service: &str, protocol: &str) -> (r: String)
    ensures
        r@ == main_name(service@, protocol@),
{
    proof {
        reveal_strlit(".");
        reveal_strlit(".local.");
    }
    let mut out = String::from_str(service);
    out.append(".");
    out.append(protocol);
    out.append(".local.");
    assert(out@ =~= main_name(service@, protocol@));
    out
}

/// Builds `_L<discriminator>`.
pub fn build_long_token(discriminator: u16) -> (r: String)
    ensures
        r@ == long_token(discriminator),
{
    proof {
        reveal_strlit("_L");
    }
    let mut out = String::from_str("_L");
    push_decimal(&mut out, discriminator & 0xFFF);
    assert(out@ =~= long_token(discriminator));
    out
}

/// Builds `_S<upper four bits of the discriminator>`.
pub fn build_short_token(discriminator: u16) -> (r: String)
    ensures
        r@ == short_token(discriminator),
{
    proof {
        reveal_strlit("_S");
    }
    let mut out = String::from_str("_S");
    push_decimal(&mut out, (discriminator >> 8) & 0xF);
    assert(out@ =~= short_token(discriminator));
    out
}

/// Builds `_CM`.
pub fn build_mode_token() -> (r: String)
    ensures
        r@ == mode_token(),
{
    proof {
        reveal_strlit("_CM");
    }
    let out = String::from_str("_CM");
    assert(out@ =~= mode_token());
    out
}

/// Builds `_V<vendor id>`.
pub fn build_vendor_token(vendor_id: u16) -> (r: String)
    ensures
        r@ == vendor_token(vendor_id),
{
    proof {
        reveal_strlit("_V");
    }
    let mut out = String::from_str("_V");
    push_decimal(&mut out, vendor_id);
    assert(out@ =~= vendor_token(vendor_id));
    out
}

fn make_record(name: String, service: &LogicalService, host: &HostIdentity) -> (r: Record)
    ensures
        r@ == record_for(name@, service@, host@),
{
    Record {
        name,
        instance: service.name.clone(),
        host: host.host_name.clone(),
        address: host.address.clone(),
        port: host.port,
        txt_kvs: clone_txt(&service.txt_kvs),
    }
}

fn make_subtype(token: String, main: &str, service: &LogicalService, host: &HostIdentity) -> (r: Record)
    ensures
        r@ == record_for(subtype_name(token@, main@), service@, host@),
{
    proof {
        reveal_strlit("._sub.");
    }
    let mut name = token;
    name.append("._sub.");
    name.append(main);
    assert(name@ =~= subtype_name(token@, main@));
    make_record(name, service, host)
}

/// Turns one logical service into its main record and its subtype
/// records. Every record carries the service's TXT pairs unchanged and
/// points at the host's name, address and port.
pub fn build(service: &LogicalService, host: &HostIdentity) -> (r: (Record, Vec<Record>))
    ensures
        r.0@ == main_record(service@, host@),
        records_view(r.1@) == subtype_records(service@, host@),
{
    let main = build_main_name(service.service.as_str(), service.protocol.as_str());
    let mut subs: Vec<Record> = Vec::new();
    if service.is_commissionable() {
        subs.push(make_subtype(build_long_token(service.discriminator), main.as_str(), service, host));
        subs.push(make_subtype(build_short_token(service.discriminator), main.as_str(), service, host));
        if service.commissioning_mode != 0 {
            subs.push(make_subtype(build_mode_token(), main.as_str(), service, host));
        }
        subs.push(make_subtype(build_vendor_token(service.vendor_id), main.as_str(), service, host));
    }
    let record = make_record(main, service, host);
    assert(records_view(subs@) =~= subtype_records(service@, host@));
    (record, subs)
}

/// Building is a function of the views of its inputs: equal services on
/// equal hosts give equal records.
pub proof fn lemma_build_deterministic(
    s1: LogicalServiceView,
    h1: HostIdentityView,
    s2: LogicalServiceView,
    h2: HostIdentityView,
)
    requires
        s1 == s2,
        h1 == h2,
    ensures
        main_record(s1, h1) == main_record(s2, h2),
        subtype_records(s1, h1) == subtype_records(s2, h2),
{
}

/// The subtype records of one service have pairwise different names.
pub proof fn lemma_subtype_names_distinct(s: LogicalServiceView, h: HostIdentityView, i: int, j: int)
    requires
        0 <= i < j < subtype_records(s, h).len(),
    ensures
        subtype_records(s, h)[i].name != subtype_records(s, h)[j].name,
{
    let tokens = subtype_tokens(s);
    let main = main_name(s.service, s.protocol);
    assert(tokens[i].len() >= 2 && tokens[j].len() >= 2);
    assert(tokens[i][1] != tokens[j][1]);
    assert(subtype_name(tokens[i], main)[1] == tokens[i][1]);
    assert(subtype_name(tokens[j], main)[1] == tokens[j][1]);
}

} // verus!
