use mdns_advertiser::error::ErrorCode;
use mdns_advertiser::responder::MdnsDsResponder;
use mdns_advertiser::service::{HostIdentity, LogicalService, ServiceId, ServiceKind};

fn host() -> HostIdentity {
    HostIdentity {
        host_name: "node-1.local.".to_string(),
        address: "192.168.1.20".to_string(),
        port: 5540,
    }
}

fn commissionable(instance_id: u64) -> LogicalService {
    LogicalService {
        kind: ServiceKind::Commissionable,
        instance_id,
        name: "0123456789ABCDEF".to_string(),
        service: "_matterc".to_string(),
        protocol: "_udp".to_string(),
        discriminator: 3840,
        vendor_id: 65521,
        product_id: 32769,
        commissioning_mode: 1,
        txt_kvs: vec![("D".to_string(), "3840".to_string())],
        port: 5540,
    }
}

fn operational(instance_id: u64) -> LogicalService {
    LogicalService {
        kind: ServiceKind::Operational,
        instance_id,
        name: "AAAA-BBBB".to_string(),
        service: "_matter".to_string(),
        protocol: "_tcp".to_string(),
        discriminator: 0,
        vendor_id: 0,
        product_id: 0,
        commissioning_mode: 0,
        txt_kvs: Vec::new(),
        port: 5540,
    }
}

fn five_names() -> Vec<String> {
    vec![
        "_matterc._udp.local.".to_string(),
        "_L3840._sub._matterc._udp.local.".to_string(),
        "_S15._sub._matterc._udp.local.".to_string(),
        "_CM._sub._matterc._udp.local.".to_string(),
        "_V65521._sub._matterc._udp.local.".to_string(),
    ]
}

#[test]
fn new_responder_is_empty() {
    let responder = MdnsDsResponder::new(host());
    assert_eq!(responder.len(), 0);
    assert!(!responder.is_registered(commissionable(1).id()));
    assert_eq!(responder.registered_names(commissionable(1).id()), None);
}

#[test]
fn end_to_end_register_then_remove() {
    let mut responder = MdnsDsResponder::new(host());
    let plan = responder.update_services(&vec![commissionable(1)]);
    assert!(plan.deregister.is_empty());
    assert_eq!(plan.register.len(), 1);
    let registration = &plan.register[0];
    assert_eq!(registration.id, ServiceId { kind: ServiceKind::Commissionable, instance_id: 1 });
    let mut calls = vec![registration.main.name.clone()];
    for r in &registration.subtypes {
        calls.push(r.name.clone());
    }
    assert_eq!(calls, five_names());
    assert_eq!(responder.len(), 0);
    assert_eq!(responder.settle(registration, true), Ok(()));
    assert_eq!(responder.len(), 1);
    assert_eq!(responder.registered_names(commissionable(1).id()), Some(five_names()));

    let plan = responder.update_services(&Vec::new());
    assert!(plan.register.is_empty());
    assert_eq!(plan.deregister, five_names());
    assert_eq!(responder.len(), 0);
    assert!(!responder.is_registered(commissionable(1).id()));
}

#[test]
fn registering_twice_is_a_noop() {
    let mut responder = MdnsDsResponder::new(host());
    let first = responder.register(&commissionable(1)).unwrap();
    responder.confirm(&first);
    assert_eq!(responder.len(), 1);
    assert!(responder.register(&commissionable(1)).is_none());
    let mut changed = commissionable(1);
    changed.discriminator = 1;
    changed.service = "_other".to_string();
    assert!(responder.register(&changed).is_none());
    responder.confirm(&first);
    assert_eq!(responder.len(), 1);
    assert_eq!(responder.registered_names(commissionable(1).id()), Some(five_names()));
    let plan = responder.update_services(&vec![commissionable(1), changed]);
    assert!(plan.register.is_empty());
    assert!(plan.deregister.is_empty());
    assert_eq!(responder.len(), 1);
}

#[test]
fn failed_registration_is_not_stored_and_is_planned_again() {
    let mut responder = MdnsDsResponder::new(host());
    let plan = responder.update_services(&vec![commissionable(1)]);
    assert_eq!(responder.settle(&plan.register[0], false), Err(ErrorCode::RegistrationFailed));
    assert_eq!(responder.len(), 0);
    let again = responder.update_services(&vec![commissionable(1)]);
    assert_eq!(again.register.len(), 1);
    assert_eq!(again.register[0].main.name, "_matterc._udp.local.");
}

#[test]
fn identity_is_kind_and_instance() {
    let mut responder = MdnsDsResponder::new(host());
    let snapshot = vec![commissionable(1), operational(1), commissionable(2), commissionable(1)];
    let plan = responder.update_services(&snapshot);
    assert_eq!(plan.register.len(), 3);
    assert_eq!(plan.register[0].id, commissionable(1).id());
    assert_eq!(plan.register[1].id, operational(1).id());
    assert_eq!(plan.register[2].id, commissionable(2).id());
    assert!(plan.register[1].subtypes.is_empty());
    for r in &plan.register {
        responder.confirm(r);
    }
    assert_eq!(responder.len(), 3);
}

#[test]
fn only_missing_identities_are_withdrawn() {
    let mut responder = MdnsDsResponder::new(host());
    let snapshot = vec![commissionable(1), operational(7), commissionable(2)];
    let plan = responder.update_services(&snapshot);
    for r in &plan.register {
        assert_eq!(responder.settle(r, true), Ok(()));
    }
    let plan = responder.update_services(&vec![operational(7), operational(8)]);
    let mut expected = five_names();
    expected.extend(five_names());
    assert_eq!(plan.deregister, expected);
    assert_eq!(plan.register.len(), 1);
    assert_eq!(plan.register[0].id, operational(8).id());
    assert_eq!(responder.len(), 1);
    assert!(responder.is_registered(operational(7).id()));
    assert!(!responder.is_registered(commissionable(1).id()));
    assert!(!responder.is_registered(commissionable(2).id()));
    assert_eq!(
        responder.registered_names(operational(7).id()),
        Some(vec!["_matter._tcp.local.".to_string()])
    );
}

#[test]
fn unchanged_snapshot_asks_for_nothing() {
    let mut responder = MdnsDsResponder::new(host());
    let snapshot = vec![commissionable(1), operational(7)];
    let plan = responder.update_services(&snapshot);
    for r in &plan.register {
        responder.confirm(r);
    }
    let plan = responder.update_services(&snapshot);
    assert!(plan.register.is_empty());
    assert!(plan.deregister.is_empty());
    assert_eq!(responder.len(), 2);
}

#[test]
fn shutdown_withdraws_every_stored_name() {
    let mut responder = MdnsDsResponder::new(host());
    let plan = responder.update_services(&vec![operational(7), commissionable(1)]);
    for r in &plan.register {
        responder.confirm(r);
    }
    let mut expected = vec!["_matter._tcp.local.".to_string()];
    expected.extend(five_names());
    assert_eq!(responder.shutdown(), expected);
    assert_eq!(responder.len(), 0);
    assert!(responder.shutdown().is_empty());
}

#[test]
fn txt_keys_are_checked_for_duplicates() {
    let mut service = commissionable(1);
    assert!(service.has_unique_keys());
    service.txt_kvs.push(("CM".to_string(), "1".to_string()));
    assert!(service.has_unique_keys());
    service.txt_kvs.push(("D".to_string(), "7".to_string()));
    assert!(!service.has_unique_keys());
    assert!(operational(1).has_unique_keys());
}
