//! Services of the cluster, and the addresses under which they are reached.
use vstd::prelude::*;

use crate::k8::objects::OwnerReference;
use crate::string_map::StringMap;
use crate::text::{copy_opt_text, opt_text};

verus! {

/// A port of a service.
#[derive(Debug, Clone, Copy, PartialEq, Eq, Structural)]
pub struct ServicePort {
    pub port: i32,
    pub target_port: Option<i32>,
    pub node_port: Option<i32>,
}

/// What a service is to be.
#[derive(Debug)]
pub struct ServiceSpec {
    pub selector: Option<StringMap<String>>,
    pub service_type: Option<String>,
    pub ports: Option<Vec<ServicePort>>,
    pub external_traffic_policy: Option<String>,
}

/// A service of the cluster.
#[derive(Debug)]
pub struct Service {
    pub name: Option<String>,
    pub namespace: Option<String>,
    pub labels: Option<StringMap<String>>,
    pub annotations: Option<StringMap<String>>,
    pub owners: Vec<OwnerReference>,
    pub spec: Option<ServiceSpec>,
    /// The addresses that a load balancer gave to the service.
    pub balancer: Vec<IngressAddr>,
}

/// An address from which a unit is reached.
#[derive(Debug, PartialEq, Eq)]
pub struct IngressAddr {
    pub hostname: Option<String>,
    pub ip: Option<String>,
}

/// How a connection is secured.
#[derive(Debug, Clone, Copy, PartialEq, Eq, Structural)]
pub enum EncryptionEnum {
    PLAINTEXT,
    SSL,
}

/// The port and the addresses from which a unit is reached.
#[derive(Debug, PartialEq, Eq)]
pub struct IngressPort {
    pub port: u16,
    pub ingress: Vec<IngressAddr>,
    pub encryption: EncryptionEnum,
}

/// An address as texts.
pub struct AddrModel {
    pub hostname: Option<Seq<char>>,
    pub ip: Option<Seq<char>>,
}

/// A port and addresses as texts.
pub struct PortModel {
    pub port: u16,
    pub ingress: Seq<AddrModel>,
    pub encryption: EncryptionEnum,
}

impl View for IngressAddr {
    type V = AddrModel;

    open spec fn view(&self) -> AddrModel {
        AddrModel { hostname: opt_text(self.hostname), ip: opt_text(self.ip) }
    }
}

/// The addresses of a list as texts.
pub open spec fn addr_models(list: Seq<IngressAddr>) -> Seq<AddrModel> {
    list.map_values(|a: IngressAddr| a@)
}

impl View for IngressPort {
    type V = PortModel;

    open spec fn view(&self) -> PortModel {
        PortModel {
            port: self.port,
            ingress: addr_models(self.ingress@),
            encryption: self.encryption,
        }
    }
}

/// No port and no address.
pub open spec fn no_ingress() -> PortModel {
    PortModel { port: 0, ingress: Seq::empty(), encryption: EncryptionEnum::PLAINTEXT }
}

impl Default for IngressPort {
    fn default() -> (r: IngressPort)
        ensures
            r@ == no_ingress(),
    {
        let r = IngressPort {
            port: 0,
            ingress: Vec::new(),
            encryption: EncryptionEnum::PLAINTEXT,
        };
        assert(r@.ingress =~= Seq::empty());
        r
    }
}

impl Clone for IngressAddr {
    fn clone(&self) -> (r: IngressAddr)
        ensures
            r@ == self@,
    {
        IngressAddr { hostname: copy_opt_text(&self.hostname), ip: copy_opt_text(&self.ip) }
    }
}

pub fn copy_addrs(list: &Vec<IngressAddr>) -> (r: Vec<IngressAddr>)
    ensures
        addr_models(r@) == addr_models(list@),
{
    let mut r: Vec<IngressAddr> = Vec::new();
    let mut i: usize = 0;
    assert(addr_models(r@) =~= addr_models(list@).take(0));
    while i < list.len()
        invariant
            i <= list@.len(),
            addr_models(r@) == addr_models(list@).take(i as int),
        decreases list.len() - i,
    {
        let ghost before = addr_models(r@);
        r.push(list[i].clone());
        assert(addr_models(r@) =~= before.push(list@[i as int]@));
        i += 1;
        assert(addr_models(r@) =~= addr_models(list@).take(i as int));
    }
    assert(addr_models(r@) =~= addr_models(list@));
    r
}

impl Clone for IngressPort {
    fn clone(&self) -> (r: IngressPort)
        ensures
            r@ == self@,
    {
        IngressPort {
            port: self.port,
            ingress: copy_addrs(&self.ingress),
            encryption: self.encryption,
        }
    }
}

} // verus!
