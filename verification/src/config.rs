//! The configuration of the gateway, as it is read from its file.

use vstd::prelude::*;

verus! {

/// A virtual service: the endpoint that clients reach, the servers behind it
/// (texts of the form `a.b.c.d:port`), and whether it speaks TCP.
#[derive(Debug, PartialEq)]
pub struct ServiceConfig {
    pub name: String,
    pub local_endpoint: String,
    pub servers: Vec<String>,
    pub is_tcp: bool,
}

/// An interface that the datapath is attached to, and its addresses (texts
/// of the form `a.b.c.d`).
#[derive(Debug, PartialEq)]
pub struct InterfaceConfig {
    pub name: String,
    pub local_ips: Vec<String>,
}

/// The hardware address of an IP address.
#[derive(Debug, PartialEq)]
pub struct IpMac {
    pub ip: String,
    pub mac: String,
}

/// The whole configuration.
#[derive(Debug, PartialEq)]
pub struct GlobalConfig {
    pub services: Vec<ServiceConfig>,
    pub interfaces: Vec<InterfaceConfig>,
    pub ip_mac_list: Vec<IpMac>,
}

} // verus!
