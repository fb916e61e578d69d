//! Where a unit is reached, as its service shows it.
use vstd::prelude::*;

use crate::k8::group::{copy_or, text_or};
use crate::k8::objects::SPU_NAME_LABEL;
use crate::k8::service::{
    addr_models, copy_addrs, AddrModel, EncryptionEnum, IngressAddr, IngressPort, PortModel,
    Service, ServicePort,
};
use crate::string_map::StringMap;
use crate::text::{opt_text, text_eq};

verus! {

/// The annotation that gives a service an address of its own.
pub const INGRESS_ADDRESS: &'static str = "fluvio.io/ingress-address";

/// Why a service shows no address.
#[derive(Debug, Clone, Copy, PartialEq, Eq, Structural)]
pub enum IngressError {
    NoSpec,
    NoPorts,
    NoNodePort,
}

impl IngressError {
    pub open spec fn message(self) -> Seq<char> {
        match self {
            IngressError::NoSpec => "service has no spec"@,
            IngressError::NoPorts => "service has no ports"@,
            IngressError::NoNodePort => "SPU service missing NodePort"@,
        }
    }

    pub fn text(&self) -> (s: &'static str)
        ensures
            s@ == self.message(),
    {
        match self {
            IngressError::NoSpec => "service has no spec",
            IngressError::NoPorts => "service has no ports",
            IngressError::NoNodePort => "SPU service missing NodePort",
        }
    }
}

/// The value of a label or an annotation.
pub open spec fn entry_of(map: Option<StringMap<String>>, key: Seq<char>) -> Option<Seq<char>> {
    match map {
        Some(m) => if m@.contains_key(key) {
            Some(m@[key]@)
        } else {
            None
        },
        None => None,
    }
}

fn get_entry(map: &Option<StringMap<String>>, key: &str) -> (r: Option<String>)
    ensures
        opt_text(r) == entry_of(*map, key@),
{
    match map {
        Some(m) => match m.get(key) {
            Some(s) => Some(s.clone()),
            None => None,
        },
        None => None,
    }
}

/// The ports of a service; it has none where they are not given.
pub open spec fn service_ports(svc: Service) -> Seq<ServicePort> {
    match svc.spec {
        Some(spec) => match spec.ports {
            Some(ports) => ports@,
            None => Seq::empty(),
        },
        None => Seq::empty(),
    }
}

/// The type of a service, `ClusterIP` where it is not given.
pub open spec fn service_type(svc: Service) -> Seq<char> {
    match svc.spec {
        Some(spec) => text_or(spec.service_type, "ClusterIP"@),
        None => "ClusterIP"@,
    }
}

/// The address that the annotation of a service gives it: an IP address in its normal form,
/// `annotated_ip`, where the annotation is one, or else a host name.
pub open spec fn annotated(svc: Service, annotated_ip: Option<Seq<char>>) -> Seq<AddrModel> {
    let none = Seq::<AddrModel>::empty();
    match entry_of(svc.annotations, INGRESS_ADDRESS@) {
        Some(address) => match annotated_ip {
            Some(ip) => none.push(AddrModel { hostname: None, ip: Some(ip) }),
            None => none.push(AddrModel { hostname: Some(address), ip: None }),
        },
        None => none,
    }
}

/// The name of a service in the name system of the cluster.
pub open spec fn service_fqdn(svc: Service) -> Seq<char> {
    text_or(svc.name, Seq::empty()) + "."@ + text_or(svc.namespace, "default"@)
        + ".svc.cluster.local"@
}

/// Where a service is reached. A `NodePort` service is reached under its node port and the
/// annotated address alone; any other one under its port, the addresses of its load balancer and
/// the annotated one. A service inside the cluster that has none of them is reached under its
/// name.
pub open spec fn service_ingress(svc: Service, annotated_ip: Option<Seq<char>>) -> Result<
    PortModel,
    IngressError,
> {
    let ports = service_ports(svc);
    let node_port = service_type(svc) == "NodePort"@;
    if svc.spec is None {
        Err(IngressError::NoSpec)
    } else if ports.len() == 0 {
        Err(IngressError::NoPorts)
    } else if node_port && ports[0].node_port is None {
        Err(IngressError::NoNodePort)
    } else {
        let found = (if node_port {
            Seq::<AddrModel>::empty()
        } else {
            addr_models(svc.balancer@)
        }) + annotated(svc, annotated_ip);
        Ok(
            PortModel {
                port: (if node_port {
                    ports[0].node_port->0
                } else {
                    ports[0].port
                }) as u16,
                ingress: if found.len() == 0 && (service_type(svc) == "ClusterIP"@ || service_type(
                    svc,
                ).len() == 0) {
                    found.push(AddrModel { hostname: Some(service_fqdn(svc)), ip: None })
                } else {
                    found
                },
                encryption: EncryptionEnum::PLAINTEXT,
            },
        )
    }
}

/// Finds out where a service is reached. The address that is annotated at it is read as an IP
/// address beforehand: `annotated_ip` is its normal form, none where it is no IP address.
pub fn get_ingress_from_k8s_service(svc: &Service, annotated_ip: &Option<String>) -> (r: Result<
    IngressPort,
    IngressError,
>)
    ensures
        (match r {
            Ok(p) => service_ingress(*svc, opt_text(*annotated_ip)) == Ok::<
                PortModel,
                IngressError,
            >(p@),
            Err(e) => service_ingress(*svc, opt_text(*annotated_ip)) == Err::<
                PortModel,
                IngressError,
            >(e),
        }),
{
    let spec = match &svc.spec {
        Some(spec) => spec,
        None => {
            return Err(IngressError::NoSpec);
        },
    };
    let first: ServicePort = match &spec.ports {
        Some(ports) => {
            if ports.len() == 0 {
                return Err(IngressError::NoPorts);
            }
            ports[0]
        },
        None => {
            return Err(IngressError::NoPorts);
        },
    };
    let kind = copy_or(&spec.service_type, "ClusterIP");
    let mut ingress: Vec<IngressAddr> = Vec::new();
    assert(addr_models(ingress@) =~= Seq::empty());
    let port: u16;
    if text_eq(kind.as_str(), "NodePort") {
        match first.node_port {
            Some(p) => {
                #[verifier::truncate]
                let low: u16 = p as u16;
                port = low;
            },
            None => {
                return Err(IngressError::NoNodePort);
            },
        }
    } else {
        #[verifier::truncate]
        let low: u16 = first.port as u16;
        port = low;
        ingress = copy_addrs(&svc.balancer);
    }
    let ghost before = addr_models(ingress@);
    if let Some(address) = get_entry(&svc.annotations, INGRESS_ADDRESS) {
        match annotated_ip {
            Some(ip) => {
                ingress.push(IngressAddr { hostname: None, ip: Some(ip.clone()) });
            },
            None => {
                ingress.push(IngressAddr { hostname: Some(address), ip: None });
            },
        }
        assert(addr_models(ingress@) =~= before + annotated(*svc, opt_text(*annotated_ip)));
    } else {
        assert(addr_models(ingress@) =~= before + annotated(*svc, opt_text(*annotated_ip)));
    }
    let ghost found = addr_models(ingress@);
    if ingress.len() == 0 && (text_eq(kind.as_str(), "ClusterIP") || kind.as_str().is_empty()) {
        let none = String::new();
        assert(none@ =~= Seq::empty());
        let fqdn = copy_or(&svc.name, none.as_str()).concat(".").concat(
            copy_or(&svc.namespace, "default").as_str(),
        ).concat(".svc.cluster.local");
        ingress.push(IngressAddr { hostname: Some(fqdn), ip: None });
        assert(addr_models(ingress@) =~= found.push(
            AddrModel { hostname: Some(service_fqdn(*svc)), ip: None },
        ));
    }
    Ok(IngressPort { port, ingress, encryption: EncryptionEnum::PLAINTEXT })
}

/// A service and, where the address that is annotated at it is an IP address, its normal form.
#[derive(Debug)]
pub struct ListedService {
    pub service: Service,
    pub annotated_ip: Option<String>,
}

/// Where the units are reached whose services are `services`: the last service that carries the
/// name of a unit and shows an address decides.
pub open spec fn services_map(services: Seq<ListedService>) -> Map<Seq<char>, PortModel>
    decreases services.len(),
{
    if services.len() == 0 {
        Map::empty()
    } else {
        let rest = services_map(services.drop_last());
        let last = services.last();
        match entry_of(last.service.labels, SPU_NAME_LABEL@) {
            Some(name) => match service_ingress(last.service, opt_text(last.annotated_ip)) {
                Ok(port) => rest.insert(name, port),
                Err(_) => rest,
            },
            None => rest,
        }
    }
}

/// Whether a service decides where the unit `name` is reached: it carries the name and shows an
/// address.
pub open spec fn decides(listed: ListedService, name: Seq<char>) -> bool {
    entry_of(listed.service.labels, SPU_NAME_LABEL@) == Some(name) && service_ingress(
        listed.service,
        opt_text(listed.annotated_ip),
    ) is Ok
}

/// A unit is reached where the last of its services that shows an address says, and nowhere where
/// none of its services shows one.
pub proof fn law_last_service_decides(services: Seq<ListedService>, name: Seq<char>)
    ensures
        services_map(services).contains_key(name) <==> exists|k: int|
            0 <= k < services.len() && #[trigger] decides(services[k], name),
        forall|k: int|
            0 <= k < services.len() && #[trigger] decides(services[k], name) && (forall|j: int|
                k < j < services.len() ==> !#[trigger] decides(services[j], name))
                ==> service_ingress(services[k].service, opt_text(services[k].annotated_ip)) == Ok::<
                PortModel,
                IngressError,
            >(services_map(services)[name]),
    decreases services.len(),
{
    if services.len() > 0 {
        let front = services.drop_last();
        let last = services.last();
        law_last_service_decides(front, name);
        assert(services[services.len() - 1] == last);
        assert(services_map(services).contains_key(name) <==> exists|k: int|
            0 <= k < services.len() && #[trigger] decides(services[k], name)) by {
            if services_map(services).contains_key(name) {
                if !decides(last, name) {
                    let k = choose|k: int| 0 <= k < front.len() && #[trigger] decides(front[k], name);
                    assert(decides(services[k], name));
                } else {
                    assert(decides(services[services.len() - 1], name));
                }
            }
            if exists|k: int| 0 <= k < services.len() && #[trigger] decides(services[k], name) {
                let k = choose|k: int|
                    0 <= k < services.len() && #[trigger] decides(services[k], name);
                if k < front.len() {
                    assert(decides(front[k], name));
                }
            }
        }
        assert forall|k: int|
            0 <= k < services.len() && #[trigger] decides(services[k], name) && (forall|j: int|
                k < j < services.len() ==> !#[trigger] decides(
                    services[j],
                    name,
                )) implies service_ingress(
            services[k].service,
            opt_text(services[k].annotated_ip),
        ) == Ok::<PortModel, IngressError>(services_map(services)[name]) by {
            if k < front.len() {
                assert(!decides(services[services.len() - 1], name));
                assert(decides(front[k], name));
                assert forall|j: int| k < j < front.len() implies !#[trigger] decides(
                    front[j],
                    name,
                ) by {
                    assert(front[j] == services[j]);
                }
            }
        }
    }
}

/// A service is one of the unit whose name it carries as its label, where it shows an address.
pub proof fn law_service_is_known_by_its_label(listed: ListedService, name: Seq<char>)
    ensures
        decides(listed, name) <==> entry_of(listed.service.labels, "fluvio.io/spu-name"@) == Some(name)
            && service_ingress(listed.service, opt_text(listed.annotated_ip)) is Ok,
{
}

/// The ports and addresses of a map as texts.
pub open spec fn port_models(map: Map<Seq<char>, IngressPort>) -> Map<Seq<char>, PortModel> {
    map.map_values(|p: IngressPort| p@)
}

/// The address of each unit, by its name, from the services of the units.
pub fn build_services_map(services: &Vec<ListedService>) -> (map: StringMap<IngressPort>)
    ensures
        port_models(map@) == services_map(services@),
{
    let mut map: StringMap<IngressPort> = StringMap::new();
    let mut i: usize = 0;
    assert(port_models(map@) =~= services_map(services@.take(0)));
    while i < services.len()
        invariant
            i <= services@.len(),
            port_models(map@) == services_map(services@.take(i as int)),
        decreases services.len() - i,
    {
        let ghost before = map@;
        proof {
            assert(services@.take(i + 1).drop_last() =~= services@.take(i as int));
            assert(services@.take(i + 1).last() == services@[i as int]);
        }
        if let Some(name) = get_entry(&services[i].service.labels, SPU_NAME_LABEL) {
            match get_ingress_from_k8s_service(&services[i].service, &services[i].annotated_ip) {
                Ok(ingress) => {
                    let ghost key = name@;
                    let ghost model = ingress@;
                    map.insert(name, ingress);
                    assert(port_models(map@) =~= port_models(before).insert(key, model));
                },
                Err(_) => {},
            }
        }
        i += 1;
    }
    assert(services@.take(i as int) =~= services@);
    map
}

/// Why a service is not reached is said in words, in different ones for each reason.
pub proof fn law_reasons_are_told_apart(a: IngressError, b: IngressError)
    ensures
        a.message() == b.message() ==> a == b,
        a == IngressError::NoSpec ==> a.message() == "service has no spec"@,
        a == IngressError::NoPorts ==> a.message() == "service has no ports"@,
        a == IngressError::NoNodePort ==> a.message() == "SPU service missing NodePort"@,
{
    reveal_strlit("service has no spec");
    reveal_strlit("service has no ports");
    reveal_strlit("SPU service missing NodePort");
    assert("service has no spec"@.len() == 19 && "service has no ports"@.len() == 20
        && "SPU service missing NodePort"@.len() == 28);
}

} // verus!
