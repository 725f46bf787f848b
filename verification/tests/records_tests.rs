use mdns_advertiser::records::{
    build, build_long_token, build_main_name, build_mode_token, build_short_token,
    build_vendor_token, Record,
};
use mdns_advertiser::service::{HostIdentity, LogicalService, ServiceKind};

fn host() -> HostIdentity {
    HostIdentity {
        host_name: "node-1.local.".to_string(),
        address: "192.168.1.20".to_string(),
        port: 5540,
    }
}

fn commissionable(discriminator: u16, vendor_id: u16, commissioning_mode: u8) -> LogicalService {
    LogicalService {
        kind: ServiceKind::Commissionable,
        instance_id: 1,
        name: "0123456789ABCDEF".to_string(),
        service: "_matterc".to_string(),
        protocol: "_udp".to_string(),
        discriminator,
        vendor_id,
        product_id: 32769,
        commissioning_mode,
        txt_kvs: vec![
            ("D".to_string(), "3840".to_string()),
            ("CM".to_string(), "1".to_string()),
        ],
        port: 5540,
    }
}

fn names(records: &Vec<Record>) -> Vec<String> {
    let mut out = Vec::new();
    for r in records {
        out.push(r.name.clone());
    }
    out
}

#[test]
fn discriminator_3840_gives_l3840_and_s15() {
    assert_eq!(build_long_token(3840), "_L3840");
    assert_eq!(build_short_token(3840), "_S15");
}

#[test]
fn tokens_are_not_padded() {
    assert_eq!(build_long_token(0), "_L0");
    assert_eq!(build_short_token(0), "_S0");
    assert_eq!(build_long_token(7), "_L7");
    assert_eq!(build_long_token(255), "_L255");
    assert_eq!(build_short_token(255), "_S0");
    assert_eq!(build_short_token(256), "_S1");
    assert_eq!(build_long_token(4095), "_L4095");
    assert_eq!(build_vendor_token(0), "_V0");
    assert_eq!(build_vendor_token(10), "_V10");
    assert_eq!(build_vendor_token(65521), "_V65521");
    assert_eq!(build_vendor_token(65535), "_V65535");
    assert_eq!(build_mode_token(), "_CM");
}

#[test]
fn discriminator_is_cut_to_twelve_bits() {
    assert_eq!(build_long_token(0xFFFF), "_L4095");
    assert_eq!(build_short_token(0xFFFF), "_S15");
    assert_eq!(build_long_token(0x1F00), "_L3840");
    assert_eq!(build_short_token(0x1F00), "_S15");
}

#[test]
fn main_name_joins_type_and_protocol() {
    assert_eq!(build_main_name("_matterc", "_udp"), "_matterc._udp.local.");
    assert_eq!(build_main_name("_matter", "_tcp"), "_matter._tcp.local.");
    assert_eq!(build_main_name("", ""), "..local.");
}

#[test]
fn commissionable_service_gets_four_subtypes() {
    let (main, subs) = build(&commissionable(3840, 65521, 1), &host());
    assert_eq!(main.name, "_matterc._udp.local.");
    assert_eq!(
        names(&subs),
        vec![
            "_L3840._sub._matterc._udp.local.".to_string(),
            "_S15._sub._matterc._udp.local.".to_string(),
            "_CM._sub._matterc._udp.local.".to_string(),
            "_V65521._sub._matterc._udp.local.".to_string(),
        ]
    );
}

#[test]
fn mode_subtype_is_left_out_when_not_commissionable() {
    let (_, subs) = build(&commissionable(3840, 65521, 0), &host());
    assert_eq!(
        names(&subs),
        vec![
            "_L3840._sub._matterc._udp.local.".to_string(),
            "_S15._sub._matterc._udp.local.".to_string(),
            "_V65521._sub._matterc._udp.local.".to_string(),
        ]
    );
    let (_, enhanced) = build(&commissionable(3840, 65521, 2), &host());
    assert_eq!(enhanced.len(), 4);
    assert_eq!(enhanced[2].name, "_CM._sub._matterc._udp.local.");
}

#[test]
fn operational_service_has_no_subtypes() {
    let mut service = commissionable(3840, 65521, 1);
    service.kind = ServiceKind::Operational;
    service.service = "_matter".to_string();
    service.protocol = "_tcp".to_string();
    let (main, subs) = build(&service, &host());
    assert_eq!(main.name, "_matter._tcp.local.");
    assert!(subs.is_empty());
    service.kind = ServiceKind::Custom;
    assert!(build(&service, &host()).1.is_empty());
    service.kind = ServiceKind::CommissionableOverIpv6;
    assert_eq!(build(&service, &host()).1.len(), 4);
}

#[test]
fn every_record_carries_host_and_txt() {
    let service = commissionable(3840, 65521, 1);
    let (main, subs) = build(&service, &host());
    let mut all = vec![main];
    all.extend(subs);
    assert_eq!(all.len(), 5);
    for r in &all {
        assert_eq!(r.instance, "0123456789ABCDEF");
        assert_eq!(r.host, "node-1.local.");
        assert_eq!(r.address, "192.168.1.20");
        assert_eq!(r.port, 5540);
        assert_eq!(r.txt_kvs, service.txt_kvs);
    }
}

#[test]
fn building_twice_gives_the_same_records() {
    let service = commissionable(3840, 65521, 1);
    let (main_a, subs_a) = build(&service, &host());
    let (main_b, subs_b) = build(&service, &host());
    assert_eq!(format!("{:?}", main_a), format!("{:?}", main_b));
    assert_eq!(format!("{:?}", subs_a), format!("{:?}", subs_b));
    assert_eq!(main_a.name.as_bytes(), main_b.name.as_bytes());
}

#[test]
fn subtype_names_differ() {
    let (_, subs) = build(&commissionable(0, 0, 1), &host());
    let all = names(&subs);
    for i in 0..all.len() {
        for j in 0..i {
            assert_ne!(all[i], all[j]);
        }
    }
}
