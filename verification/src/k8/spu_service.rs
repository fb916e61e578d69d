//! The services of the units of a group.
use vstd::prelude::*;

use crate::decimal::{decimal, digits};
use crate::k8::objects::{
    ExternalTrafficPolicy, LoadBalancerType, OwnerReference, ScK8Config, SPU_NAME_LABEL,
    SPU_PUBLIC_PORT,
};
use crate::k8::service::{IngressAddr, Service, ServicePort, ServiceSpec};
use crate::string_map::{lemma_new_key, text_items, unique_keys, StringMap};
use crate::text::{opt_text, replace_text, replaced};

verus! {

/// The label by which a service picks out one pod of a stateful set.
pub const POD_NAME_LABEL: &'static str = "statefulset.kubernetes.io/pod-name";

/// The name of the unit with a given index.
pub open spec fn unit_name(group: Seq<char>, index: nat) -> Seq<char> {
    group + "-"@ + digits(index)
}

pub fn group_unit_name(group: &str, index: u16) -> (r: String)
    ensures
        r@ == unit_name(group@, index as nat),
{
    group.to_owned().concat("-").concat(decimal(index as u64).as_str())
}

/// The name of the service of a unit.
pub open spec fn spu_service_name(spu_name: Seq<char>) -> Seq<char> {
    "fluvio-spu-"@ + spu_name
}

pub fn service_name_of(spu_name: &str) -> (r: String)
    ensures
        r@ == spu_service_name(spu_name@),
{
    "fluvio-spu-".to_owned().concat(spu_name)
}

/// An annotation with the index and the name of the unit filled in.
pub open spec fn filled_in(value: Seq<char>, replica: nat, spu_name: Seq<char>) -> Seq<char> {
    replaced(replaced(value, "{replica}"@, digits(replica)), "{spu_name}"@, spu_name)
}

/// The configured annotations, filled in for one unit.
pub open spec fn filled_annotations(
    items: Seq<(Seq<char>, Seq<char>)>,
    replica: nat,
    spu_name: Seq<char>,
) -> Seq<(Seq<char>, Seq<char>)> {
    items.map_values(|e: (Seq<char>, Seq<char>)| (e.0, filled_in(e.1, replica, spu_name)))
}

fn fill_annotations(config: &StringMap<String>, replica: u16, spu_name: &str) -> (r: StringMap<
    String,
>)
    ensures
        text_items(r.items()) == filled_annotations(
            text_items(config.items()),
            replica as nat,
            spu_name@,
        ),
{
    let index = decimal(replica as u64);
    let mut r: StringMap<String> = StringMap::new();
    let n: usize = config.len();
    let mut i: usize = 0;
    let ghost all = filled_annotations(text_items(config.items()), replica as nat, spu_name@);
    assert forall|a: int, b: int| 0 <= a < b < all.len() implies (#[trigger] all[a]).0 != (
    #[trigger] all[b]).0 by {
        assert(config.items()[a].0 != config.items()[b].0);
    }
    assert(text_items(r.items()) =~= all.take(0));
    proof {
        reveal_strlit("{replica}");
        reveal_strlit("{spu_name}");
    }
    while i < n
        invariant
            i <= n,
            n == config.items().len(),
            all == filled_annotations(text_items(config.items()), replica as nat, spu_name@),
            unique_keys(all),
            index@ == digits(replica as nat),
            "{replica}"@.len() > 0,
            "{spu_name}"@.len() > 0,
            text_items(r.items()) == all.take(i as int),
        decreases n - i,
    {
        let key = config.key_at(i).clone();
        let first = replace_text(config.value_at(i).as_str(), "{replica}", index.as_str());
        let value = replace_text(first.as_str(), "{spu_name}", spu_name);
        let ghost before = r.items();
        let ghost pair = (key@, value);
        proof {
            assert(all[i as int] == (pair.0, pair.1@));
            lemma_new_key(before, all, i as int);
        }
        r.insert(key, value);
        assert(r.items() == before.push(pair));
        assert(text_items(r.items()) =~= text_items(before).push((pair.0, pair.1@)));
        i += 1;
        assert(text_items(r.items()) =~= all.take(i as int));
    }
    assert(all.take(i as int) =~= all);
    r
}

fn one_entry(key: &str, value: &str) -> (r: StringMap<String>)
    ensures
        text_items(r.items()) == Seq::<(Seq<char>, Seq<char>)>::empty().push((key@, value@)),
{
    let mut r: StringMap<String> = StringMap::new();
    r.insert(key.to_owned(), value.to_owned());
    assert(text_items(r.items()) =~= Seq::empty().push((key@, value@)));
    r
}

/// The name of a service type.
pub open spec fn kind_name(ty: LoadBalancerType) -> Seq<char> {
    match ty {
        LoadBalancerType::ClusterIP => "ClusterIP"@,
        LoadBalancerType::NodePort => "NodePort"@,
        LoadBalancerType::LoadBalancer => "LoadBalancer"@,
        LoadBalancerType::ExternalName => "ExternalName"@,
    }
}

fn kind_text(ty: LoadBalancerType) -> (s: &'static str)
    ensures
        s@ == kind_name(ty),
{
    match ty {
        LoadBalancerType::ClusterIP => "ClusterIP",
        LoadBalancerType::NodePort => "NodePort",
        LoadBalancerType::LoadBalancer => "LoadBalancer",
        LoadBalancerType::ExternalName => "ExternalName",
    }
}

/// The name of a traffic policy.
pub open spec fn policy_name(policy: ExternalTrafficPolicy) -> Seq<char> {
    match policy {
        ExternalTrafficPolicy::Local => "Local"@,
        ExternalTrafficPolicy::Cluster => "Cluster"@,
    }
}

fn policy_text(policy: ExternalTrafficPolicy) -> (s: &'static str)
    ensures
        s@ == policy_name(policy),
{
    match policy {
        ExternalTrafficPolicy::Local => "Local",
        ExternalTrafficPolicy::Cluster => "Cluster",
    }
}

/// The configured service type.
pub open spec fn configured_type(config: ScK8Config) -> Option<LoadBalancerType> {
    match config.service {
        Some(template) => template.service_type,
        None => None,
    }
}

/// The configured traffic policy.
pub open spec fn configured_policy(config: ScK8Config) -> Option<ExternalTrafficPolicy> {
    match config.service {
        Some(template) => template.external_traffic_policy,
        None => None,
    }
}

/// The node port of a unit: the configured base and its index, for services of the type
/// `NodePort` alone.
pub open spec fn unit_node_port(config: ScK8Config, replica: nat) -> Option<int> {
    if configured_type(config) == Some(LoadBalancerType::NodePort) {
        match config.spu_pod_config.base_node_port {
            Some(base) => Some(base + replica),
            None => None,
        }
    } else {
        None
    }
}

/// No node port up to that of `replica` leaves 16 bits.
pub open spec fn node_port_fits(config: ScK8Config, replica: nat) -> bool {
    match unit_node_port(config, replica) {
        Some(p) => p <= u16::MAX,
        None => true,
    }
}

/// Whether `svc` is the service of the unit `spu_name`, which has the index `replica` in its group.
pub open spec fn is_spu_service(
    svc: Service,
    replica: nat,
    spu_name: Seq<char>,
    group: Seq<char>,
    group_uid: Seq<char>,
    config: ScK8Config,
    namespace: Seq<char>,
) -> bool {
    let annotations = filled_annotations(
        text_items(config.lb_service_annotations.items()),
        replica,
        spu_name,
    );
    &&& opt_text(svc.name) == Some(spu_service_name(spu_name))
    &&& opt_text(svc.namespace) == Some(namespace)
    &&& svc.labels matches Some(labels)
    &&& text_items(labels.items()) == Seq::<(Seq<char>, Seq<char>)>::empty().push(
        (SPU_NAME_LABEL@, spu_name),
    )
    &&& (match svc.annotations {
        Some(a) => annotations.len() > 0 && text_items(a.items()) == annotations,
        None => annotations.len() == 0,
    })
    &&& svc.owners@.len() == 1
    &&& svc.owners@[0].is_group(group, group_uid)
    &&& svc.spec matches Some(spec)
    &&& spec.selector matches Some(selector)
    &&& text_items(selector.items()) == Seq::<(Seq<char>, Seq<char>)>::empty().push(
        (POD_NAME_LABEL@, "fluvio-spg-"@ + spu_name),
    )
    &&& opt_text(spec.service_type) == (match configured_type(config) {
        Some(ty) => Some(kind_name(ty)),
        None => None,
    })
    &&& opt_text(spec.external_traffic_policy) == (match configured_policy(config) {
        Some(policy) => Some(policy_name(policy)),
        None => None,
    })
    &&& spec.ports matches Some(ports)
    &&& ports@.len() == 1
    &&& ports@[0].port == SPU_PUBLIC_PORT
    &&& ports@[0].target_port == Some(SPU_PUBLIC_PORT as i32)
    &&& (match ports@[0].node_port {
        Some(p) => unit_node_port(config, replica) == Some(p as int),
        None => unit_node_port(config, replica) is None,
    })
    &&& svc.balancer@.len() == 0
}

/// Builds the service of a unit.
pub fn build_spu_service(
    replica: u16,
    spu_name: &str,
    group: &str,
    group_uid: &str,
    config: &ScK8Config,
    namespace: &str,
) -> (svc: Service)
    requires
        node_port_fits(*config, replica as nat),
    ensures
        is_spu_service(
            svc,
            replica as nat,
            spu_name@,
            group@,
            group_uid@,
            *config,
            namespace@,
        ),
{
    let pod_name = "fluvio-spg-".to_owned().concat(spu_name);
    let annotations = fill_annotations(&config.lb_service_annotations, replica, spu_name);
    let mut service_type: Option<String> = None;
    let mut node_port: Option<i32> = None;
    let mut external_traffic_policy: Option<String> = None;
    if let Some(template) = &config.service {
        if let Some(ty) = template.service_type {
            service_type = Some(kind_text(ty).to_owned());
            if ty == LoadBalancerType::NodePort {
                if let Some(base) = config.spu_pod_config.base_node_port {
                    node_port = Some((base + replica) as i32);
                }
            }
        }
        if let Some(policy) = template.external_traffic_policy {
            external_traffic_policy = Some(policy_text(policy).to_owned());
        }
    }
    let port: i32 = SPU_PUBLIC_PORT as i32;
    let mut ports: Vec<ServicePort> = Vec::new();
    ports.push(ServicePort { port, target_port: Some(port), node_port });
    let mut owners: Vec<OwnerReference> = Vec::new();
    owners.push(OwnerReference::group(group, group_uid));
    let balancer: Vec<IngressAddr> = Vec::new();
    assert(text_items(annotations.items()).len() == annotations.items().len());
    Service {
        name: Some(service_name_of(spu_name)),
        namespace: Some(namespace.to_owned()),
        labels: Some(one_entry(SPU_NAME_LABEL, spu_name)),
        annotations: if annotations.is_empty() {
            None
        } else {
            Some(annotations)
        },
        owners,
        spec: Some(
            ServiceSpec {
                selector: Some(one_entry(POD_NAME_LABEL, pod_name.as_str())),
                service_type,
                ports: Some(ports),
                external_traffic_policy,
            },
        ),
        balancer,
    }
}

} // verus!
