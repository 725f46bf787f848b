//! Reconciles the DNS-SD records advertised for a device with the set of
//! logical services that the device wants discovered, and normalises the
//! host's network interfaces into validated facts.

pub mod error;
pub mod commissioning;
pub mod decimal;
pub mod hwaddr;
pub mod netif;
pub mod records;
pub mod registrar;
pub mod responder;
pub mod service;
