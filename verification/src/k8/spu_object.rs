//! The object that stands for a unit.
use vstd::prelude::*;

use crate::decimal::{decimal, digits};
use crate::json::{no_items, no_members, Items, Json, JsonTree, Members};
use crate::k8::objects::{
    api_version, group_version, OwnerReference, SPU_KIND, SPU_PRIVATE_PORT, SPU_PUBLIC_PORT,
};
use crate::k8::service::{addr_models, AddrModel, IngressAddr, IngressPort, PortModel};
use crate::k8::statefulset::{build_owned_metadata, owned_metadata};

verus! {

/// The name under which the service of a unit is found inside the cluster.
pub open spec fn public_host(spu_name: Seq<char>, namespace: Seq<char>) -> Seq<char> {
    "fluvio-spu-"@ + spu_name + "."@ + namespace + ".svc.cluster.local"@
}

pub fn public_host_of(spu_name: &str, namespace: &str) -> (r: String)
    ensures
        r@ == public_host(spu_name@, namespace@),
{
    "fluvio-spu-".to_owned().concat(spu_name).concat(".").concat(namespace).concat(
        ".svc.cluster.local",
    )
}

/// The name under which the pod of a unit is found inside the cluster.
pub open spec fn private_host(group: Seq<char>, index: nat, namespace: Seq<char>) -> Seq<char> {
    "fluvio-spg-main-"@ + digits(index) + ".fluvio-spg-"@ + group + "."@ + namespace
        + ".svc.cluster.local"@
}

pub fn private_host_of(group: &str, index: u16, namespace: &str) -> (r: String)
    ensures
        r@ == private_host(group@, index as nat, namespace@),
{
    "fluvio-spg-main-".to_owned().concat(decimal(index as u64).as_str()).concat(
        ".fluvio-spg-",
    ).concat(group).concat(".").concat(namespace).concat(".svc.cluster.local")
}

/// An address as a document; what it lacks is left out.
pub open spec fn addr_document(addr: AddrModel) -> JsonTree {
    let first = match addr.hostname {
        Some(h) => no_members().push(("hostname"@, JsonTree::Text(h))),
        None => no_members(),
    };
    JsonTree::Object(
        match addr.ip {
            Some(ip) => first.push(("ip"@, JsonTree::Text(ip))),
            None => first,
        },
    )
}

fn build_addr(addr: &IngressAddr) -> (j: Json)
    ensures
        j@ == addr_document(addr@),
{
    let mut m = Members::new();
    if let Some(h) = &addr.hostname {
        m = m.with("hostname", Json::text(h.as_str()));
    }
    if let Some(ip) = &addr.ip {
        m = m.with("ip", Json::text(ip.as_str()));
    }
    m.into_object()
}

/// The addresses of a unit; the name of its service where it has none.
pub open spec fn ingress_documents(ingress: Seq<AddrModel>, host: Seq<char>) -> Seq<JsonTree> {
    if ingress.len() == 0 {
        no_items().push(
            JsonTree::Object(no_members().push(("hostname"@, JsonTree::Text(host)))),
        )
    } else {
        ingress.map_values(|a: AddrModel| addr_document(a))
    }
}

fn build_ingress(ingress: &Vec<IngressAddr>, host: &str) -> (j: Json)
    ensures
        j@ == JsonTree::Array(ingress_documents(addr_models(ingress@), host@)),
{
    assert(addr_models(ingress@).len() == ingress@.len());
    if ingress.len() == 0 {
        let entry = Members::new().with("hostname", Json::text(host)).into_object();
        return Items::new().with(entry).into_array();
    }
    let mut items = Items::new();
    let mut i: usize = 0;
    let ghost all = addr_models(ingress@).map_values(|a: AddrModel| addr_document(a));
    assert(items@ =~= all.take(0));
    while i < ingress.len()
        invariant
            i <= ingress@.len(),
            all == addr_models(ingress@).map_values(|a: AddrModel| addr_document(a)),
            items@ == all.take(i as int),
        decreases ingress.len() - i,
    {
        items = items.with(build_addr(&ingress[i]));
        i += 1;
        assert(items@ =~= all.take(i as int));
    }
    assert(all.take(i as int) =~= all);
    items.into_array()
}

/// The port under which a unit is reached from outside; the usual one where none is known.
pub open spec fn public_port(port: u16) -> u16 {
    if port == 0 {
        SPU_PUBLIC_PORT
    } else {
        port
    }
}

/// A host and port without encryption.
pub open spec fn plain_endpoint(host: Seq<char>, port: int) -> JsonTree {
    JsonTree::Object(
        no_members().push(("host"@, JsonTree::Text(host))).push(("port"@, JsonTree::Int(port))).push(
            ("encryption"@, JsonTree::Text("PLAINTEXT"@)),
        ),
    )
}

fn build_plain_endpoint(host: &str, port: u16) -> (j: Json)
    ensures
        j@ == plain_endpoint(host@, port as int),
{
    Members::new().with("host", Json::text(host)).with("port", Json::integer(port as i64)).with(
        "encryption",
        Json::text("PLAINTEXT"),
    ).into_object()
}

/// The object of a unit.
pub open spec fn spu_object(
    spu_name: Seq<char>,
    group: Seq<char>,
    index: nat,
    spu_id: int,
    endpoint: PortModel,
    namespace: Seq<char>,
    owner: OwnerReference,
) -> JsonTree {
    let host = public_host(spu_name, namespace);
    let public = JsonTree::Object(
        no_members().push(("port"@, JsonTree::Int(public_port(endpoint.port) as int))).push(
            ("ingress"@, JsonTree::Array(ingress_documents(endpoint.ingress, host))),
        ).push(("encryption"@, JsonTree::Text("PLAINTEXT"@))),
    );
    JsonTree::Object(
        no_members().push(("apiVersion"@, JsonTree::Text(api_version()))).push(
            ("kind"@, JsonTree::Text(SPU_KIND@)),
        ).push(("metadata"@, owned_metadata(spu_name, namespace, owner))).push(
            (
                "spec"@,
                JsonTree::Object(
                    no_members().push(("spuId"@, JsonTree::Int(spu_id))).push(
                        ("spuType"@, JsonTree::Text("Managed"@)),
                    ).push(("publicEndpoint"@, public)).push(
                        (
                            "privateEndpoint"@,
                            plain_endpoint(
                                private_host(group, index, namespace),
                                SPU_PRIVATE_PORT as int,
                            ),
                        ),
                    ).push(("publicEndpointLocal"@, plain_endpoint(host, SPU_PUBLIC_PORT as int))),
                ),
            ),
        ),
    )
}

/// Builds the object of a unit.
pub fn build_spu_object(
    spu_name: &str,
    spg_name: &str,
    replica_index: u16,
    spu_id: i32,
    public_endpoint: &IngressPort,
    namespace: &str,
    owner_ref: &OwnerReference,
) -> (j: Json)
    ensures
        j@ == spu_object(
            spu_name@,
            spg_name@,
            replica_index as nat,
            spu_id as int,
            public_endpoint@,
            namespace@,
            *owner_ref,
        ),
{
    let host = public_host_of(spu_name, namespace);
    let pod = private_host_of(spg_name, replica_index, namespace);
    let port: u16 = if public_endpoint.port == 0 {
        SPU_PUBLIC_PORT
    } else {
        public_endpoint.port
    };
    let public = Members::new().with("port", Json::integer(port as i64)).with(
        "ingress",
        build_ingress(&public_endpoint.ingress, host.as_str()),
    ).with("encryption", Json::text("PLAINTEXT")).into_object();
    let spec = Members::new().with("spuId", Json::integer(spu_id as i64)).with(
        "spuType",
        Json::text("Managed"),
    ).with("publicEndpoint", public).with(
        "privateEndpoint",
        build_plain_endpoint(pod.as_str(), SPU_PRIVATE_PORT),
    ).with(
        "publicEndpointLocal",
        build_plain_endpoint(host.as_str(), SPU_PUBLIC_PORT),
    ).into_object();
    let version = group_version();
    Members::new().with("apiVersion", Json::text(version.as_str())).with(
        "kind",
        Json::text(SPU_KIND),
    ).with("metadata", build_owned_metadata(spu_name, namespace, owner_ref)).with(
        "spec",
        spec,
    ).into_object()
}

} // verus!
