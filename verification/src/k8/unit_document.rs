//! What the object and the service of a unit hold.
use vstd::prelude::*;

use crate::decimal::digits;
use crate::json::{lemma_find_none, lemma_find_push, no_items, JsonTree};
use crate::k8::ingress::{entry_of, service_ingress, IngressError};
use crate::k8::objects::{
    ExternalTrafficPolicy, LoadBalancerType, OwnerReference, ScK8Config,
};
use crate::k8::service::{addr_models, AddrModel, EncryptionEnum, PortModel, Service, ServicePort};
use crate::k8::spu_object::{
    addr_document, ingress_documents, plain_endpoint, private_host, public_host, spu_object,
};
use crate::k8::spu_service::{filled_annotations, filled_in, is_spu_service, node_port_fits};
use crate::k8::statefulset::owned_metadata;
use crate::string_map::{has_key, key_index, lemma_key_index, text_items, unique_keys, StringMap};
use crate::text::{
    has_part, law_first_occurrence_is_replaced, law_text_without_the_part_is_kept, occurs_at,
    opt_text,
};

verus! {

/// A reference to an owner says which object the owner is, and has the flags that are set.
pub proof fn law_owner_is_read_back(owner: OwnerReference)
    ensures
        ({
            let document = owner.document();
            &&& document.get("apiVersion"@) == Some(JsonTree::Text(owner.api_version@))
            &&& document.get("kind"@) == Some(JsonTree::Text(owner.kind@))
            &&& document.get("name"@) == Some(JsonTree::Text(owner.name@))
            &&& document.get("uid"@) == Some(JsonTree::Text(owner.uid@))
            &&& document.get("controller"@) == match owner.controller {
                Some(b) => Some(JsonTree::Bool(b)),
                None => None,
            }
            &&& document.get("blockOwnerDeletion"@) == match owner.block_owner_deletion {
                Some(b) => Some(JsonTree::Bool(b)),
                None => None,
            }
        }),
{
    broadcast use lemma_find_push, lemma_find_none;

    reveal_strlit("apiVersion");
    reveal_strlit("kind");
    reveal_strlit("name");
    reveal_strlit("uid");
    reveal_strlit("controller");
    reveal_strlit("blockOwnerDeletion");
    assert("apiVersion"@.len() == 10 && "kind"@.len() == 4 && "name"@.len() == 4 && "uid"@.len() == 3
        && "controller"@.len() == 10 && "blockOwnerDeletion"@.len() == 18);
    assert("kind"@[0] == 'k' && "name"@[0] == 'n' && "apiVersion"@[0] == 'a' && "controller"@[0]
        == 'c');
}

/// The reference to a group says that the group controls the object, which goes with it.
pub proof fn law_group_is_named_as_the_owner(owner: OwnerReference, name: Seq<char>, uid: Seq<char>)
    requires
        owner.is_group(name, uid),
    ensures
        ({
            let document = owner.document();
            &&& document.get("apiVersion"@) == Some(JsonTree::Text("fluvio.infinyon.com/v1"@))
            &&& document.get("kind"@) == Some(JsonTree::Text("SpuGroup"@))
            &&& document.get("name"@) == Some(JsonTree::Text(name))
            &&& document.get("uid"@) == Some(JsonTree::Text(uid))
            &&& document.get("controller"@) == Some(JsonTree::Bool(true))
            &&& document.get("blockOwnerDeletion"@) == Some(JsonTree::Bool(true))
        }),
{
    law_owner_is_read_back(owner);
    reveal_strlit("fluvio.infinyon.com");
    reveal_strlit("/");
    reveal_strlit("v1");
    reveal_strlit("fluvio.infinyon.com/v1");
    assert("fluvio.infinyon.com/v1"@ =~= "fluvio.infinyon.com"@ + "/"@ + "v1"@);
}

/// An address in a document has the host name and the IP address that it has, and nothing where it
/// has none.
pub proof fn law_address_is_read_back(addr: AddrModel)
    ensures
        addr_document(addr).get("hostname"@) == (match addr.hostname {
            Some(h) => Some(JsonTree::Text(h)),
            None => None,
        }),
        addr_document(addr).get("ip"@) == (match addr.ip {
            Some(ip) => Some(JsonTree::Text(ip)),
            None => None,
        }),
{
    broadcast use lemma_find_push, lemma_find_none;

    reveal_strlit("hostname");
    reveal_strlit("ip");
    assert("hostname"@.len() == 8 && "ip"@.len() == 2);
}

/// The object of a unit has the identifier and the name that it is given, belongs to the owner, and
/// says where the unit is reached: from outside under the port and at each address that its service
/// shows, under the usual port and at the service's own name where that shows none; by other units
/// at its pod; and inside the cluster at the service's own name.
pub proof fn law_object_of_a_unit(
    spu_name: Seq<char>,
    group: Seq<char>,
    index: nat,
    spu_id: int,
    endpoint: PortModel,
    namespace: Seq<char>,
    owner: OwnerReference,
)
    ensures
        ({
            let object = spu_object(
                spu_name,
                group,
                index,
                spu_id,
                endpoint,
                namespace,
                owner,
            );
            let metadata = object.get("metadata"@)->0;
            let spec = object.get("spec"@)->0;
            let public = spec.get("publicEndpoint"@)->0;
            let ingress = public.get("ingress"@)->0->Array_0;
            let private = spec.get("privateEndpoint"@)->0;
            let local = spec.get("publicEndpointLocal"@)->0;
            let host = "fluvio-spu-"@ + spu_name + "."@ + namespace + ".svc.cluster.local"@;
            &&& object.get("apiVersion"@) == Some(JsonTree::Text("fluvio.infinyon.com/v1"@))
            &&& object.get("kind"@) == Some(JsonTree::Text("Spu"@))
            &&& metadata.get("name"@) == Some(JsonTree::Text(spu_name))
            &&& metadata.get("namespace"@) == Some(JsonTree::Text(namespace))
            &&& metadata.get("ownerReferences"@) == Some(JsonTree::Array(seq![owner.document()]))
            &&& spec.get("spuId"@) == Some(JsonTree::Int(spu_id))
            &&& spec.get("spuType"@) == Some(JsonTree::Text("Managed"@))
            &&& public.get("port"@) == Some(
                JsonTree::Int(
                    if endpoint.port == 0 {
                        9005
                    } else {
                        endpoint.port as int
                    },
                ),
            )
            &&& public.get("encryption"@) == Some(JsonTree::Text("PLAINTEXT"@))
            &&& public.get("ingress"@) matches Some(JsonTree::Array(_))
            &&& if endpoint.ingress.len() == 0 {
                ingress.len() == 1 && ingress[0].get("hostname"@) == Some(JsonTree::Text(host))
            } else {
                &&& ingress.len() == endpoint.ingress.len()
                &&& forall|i: int|
                    0 <= i < ingress.len() ==> {
                        &&& (#[trigger] ingress[i]).get("hostname"@) == (
                        match endpoint.ingress[i].hostname {
                            Some(h) => Some(JsonTree::Text(h)),
                            None => None,
                        })
                        &&& ingress[i].get("ip"@) == (match endpoint.ingress[i].ip {
                            Some(ip) => Some(JsonTree::Text(ip)),
                            None => None,
                        })
                    }
            }
            &&& private.get("host"@) == Some(
                JsonTree::Text(
                    "fluvio-spg-main-"@ + digits(index) + ".fluvio-spg-"@ + group + "."@ + namespace
                        + ".svc.cluster.local"@,
                ),
            )
            &&& private.get("port"@) == Some(JsonTree::Int(9006))
            &&& private.get("encryption"@) == Some(JsonTree::Text("PLAINTEXT"@))
            &&& local.get("host"@) == Some(JsonTree::Text(host))
            &&& local.get("port"@) == Some(JsonTree::Int(9005))
            &&& local.get("encryption"@) == Some(JsonTree::Text("PLAINTEXT"@))
        }),
{
    broadcast use lemma_find_push, lemma_find_none;

    reveal_strlit("apiVersion");
    reveal_strlit("kind");
    reveal_strlit("metadata");
    reveal_strlit("spec");
    reveal_strlit("name");
    reveal_strlit("namespace");
    reveal_strlit("ownerReferences");
    reveal_strlit("spuId");
    reveal_strlit("spuType");
    reveal_strlit("publicEndpoint");
    reveal_strlit("privateEndpoint");
    reveal_strlit("publicEndpointLocal");
    reveal_strlit("port");
    reveal_strlit("ingress");
    reveal_strlit("encryption");
    reveal_strlit("host");
    reveal_strlit("hostname");
    reveal_strlit("fluvio.infinyon.com");
    reveal_strlit("/");
    reveal_strlit("v1");
    reveal_strlit("fluvio.infinyon.com/v1");
    assert("fluvio.infinyon.com/v1"@ =~= "fluvio.infinyon.com"@ + "/"@ + "v1"@);
    assert("apiVersion"@.len() == 10 && "kind"@.len() == 4 && "metadata"@.len() == 8 && "spec"@.len()
        == 4 && "kind"@[0] == 'k' && "spec"@[0] == 's');
    assert("name"@.len() == 4 && "namespace"@.len() == 9 && "ownerReferences"@.len() == 15);
    assert("spuId"@.len() == 5 && "spuType"@.len() == 7 && "publicEndpoint"@.len() == 14
        && "privateEndpoint"@.len() == 15 && "publicEndpointLocal"@.len() == 19);
    assert("port"@.len() == 4 && "ingress"@.len() == 7 && "encryption"@.len() == 10 && "host"@.len()
        == 4 && "port"@[0] == 'p' && "host"@[0] == 'h');
    let object = spu_object(spu_name, group, index, spu_id, endpoint, namespace, owner);
    let metadata = owned_metadata(spu_name, namespace, owner);
    assert(object.get("metadata"@) == Some(metadata));
    assert(metadata.get("name"@) == Some(JsonTree::Text(spu_name)));
    assert(metadata.get("namespace"@) == Some(JsonTree::Text(namespace)));
    assert(metadata.get("ownerReferences"@) == Some(
        JsonTree::Array(no_items().push(owner.document())),
    ));
    assert(no_items().push(owner.document()) =~= seq![owner.document()]);
    let spec = object.get("spec"@)->0;
    assert(object.get("spec"@) is Some);
    assert(spec.get("spuId"@) == Some(JsonTree::Int(spu_id)));
    assert(spec.get("spuType"@) == Some(JsonTree::Text("Managed"@)));
    let host = public_host(spu_name, namespace);
    let pod = private_host(group, index, namespace);
    let public = spec.get("publicEndpoint"@)->0;
    assert(spec.get("publicEndpoint"@) is Some);
    let items = ingress_documents(endpoint.ingress, host);
    assert(public.get("ingress"@) == Some(JsonTree::Array(items)));
    assert(public.get("port"@) is Some);
    assert(spec.get("privateEndpoint"@) == Some(plain_endpoint(pod, 9006)));
    assert(plain_endpoint(pod, 9006).get("host"@) == Some(JsonTree::Text(pod)));
    assert(plain_endpoint(pod, 9006).get("port"@) == Some(JsonTree::Int(9006)));
    assert(spec.get("publicEndpointLocal"@) == Some(plain_endpoint(host, 9005)));
    assert(plain_endpoint(host, 9005).get("host"@) == Some(JsonTree::Text(host)));
    assert(plain_endpoint(host, 9005).get("port"@) == Some(JsonTree::Int(9005)));
    if endpoint.ingress.len() == 0 {
        assert(items[0].get("hostname"@) == Some(JsonTree::Text(host)));
    } else {
        assert forall|i: int| 0 <= i < items.len() implies {
            &&& (#[trigger] items[i]).get("hostname"@) == (match endpoint.ingress[i].hostname {
                Some(h) => Some(JsonTree::Text(h)),
                None => None,
            })
            &&& items[i].get("ip"@) == (match endpoint.ingress[i].ip {
                Some(ip) => Some(JsonTree::Text(ip)),
                None => None,
            })
        } by {
            law_address_is_read_back(endpoint.ingress[i]);
        }
    }
}

/// A text with an opening brace nowhere in it has no placeholder in it.
proof fn lemma_no_placeholder(s: Seq<char>, part: Seq<char>)
    requires
        !s.contains('{'),
        part.len() > 0,
        part[0] == '{',
    ensures
        !has_part(s, part),
{
    if has_part(s, part) {
        let at = choose|at: int| #[trigger] occurs_at(s, part, at);
        assert(s.subrange(at, at + part.len())[0] == s[at]);
        assert(s[at] == '{');
    }
}

proof fn lemma_digits_have_no_brace(n: nat)
    ensures
        !digits(n).contains('{'),
{
    crate::decimal::lemma_digits_value(n);
    if digits(n).contains('{') {
        let i = choose|i: int| 0 <= i < digits(n).len() && digits(n)[i] == '{';
        assert(crate::decimal::is_digit(digits(n)[i]));
    }
}

proof fn lemma_first_brace(a: Seq<char>, part: Seq<char>, b: Seq<char>)
    requires
        !a.contains('{'),
        part.len() > 0,
        part[0] == '{',
    ensures
        forall|i: int| 0 <= i < a.len() ==> !#[trigger] occurs_at(a + part + b, part, i),
{
    assert forall|i: int| 0 <= i < a.len() implies !#[trigger] occurs_at(a + part + b, part, i) by {
        let s = a + part + b;
        if occurs_at(s, part, i) {
            assert(s.subrange(i, i + part.len())[0] == s[i]);
            assert(a[i] == '{');
        }
    }
}

/// A configured annotation without a placeholder is kept as it is. The index of the unit takes the
/// place of `{replica}`, and its name that of `{spu_name}`, wherever they stand.
pub proof fn law_annotation_is_filled_in(
    a: Seq<char>,
    b: Seq<char>,
    c: Seq<char>,
    replica: nat,
    spu_name: Seq<char>,
)
    requires
        !a.contains('{') && !b.contains('{') && !c.contains('{'),
    ensures
        filled_in(a, replica, spu_name) == a,
        filled_in(a + "{replica}"@ + b, replica, spu_name) == a + digits(replica) + b,
        filled_in(a + "{spu_name}"@ + b, replica, spu_name) == a + spu_name + b,
        filled_in(a + "{replica}"@ + b + "{spu_name}"@ + c, replica, spu_name) == a + digits(replica)
            + b + spu_name + c,
        filled_in(a + "{spu_name}"@ + b + "{replica}"@ + c, replica, spu_name) == a + spu_name + b
            + digits(replica) + c,
{
    reveal_strlit("{replica}");
    reveal_strlit("{spu_name}");
    let r = "{replica}"@;
    let n = "{spu_name}"@;
    let d = digits(replica);
    assert(r[0] == '{' && n[0] == '{' && r[1] == 'r' && n[1] == 's');
    assert(r.len() == 9 && n.len() == 10);
    lemma_digits_have_no_brace(replica);
    lemma_no_placeholder(a, r);
    lemma_no_placeholder(a, n);
    law_text_without_the_part_is_kept(a, r, d);
    law_text_without_the_part_is_kept(a, n, spu_name);
    // One placeholder.
    lemma_no_placeholder(b, r);
    lemma_no_placeholder(b, n);
    law_text_without_the_part_is_kept(b, r, d);
    law_text_without_the_part_is_kept(b, n, spu_name);
    lemma_first_brace(a, r, b);
    law_first_occurrence_is_replaced(a, r, b, d);
    let adb = a + d + b;
    assert(!adb.contains('{')) by {
        if adb.contains('{') {
            let i = choose|i: int| 0 <= i < adb.len() && adb[i] == '{';
            if i < a.len() {
                assert(a[i] == '{');
            } else if i < a.len() + d.len() {
                assert(d[i - a.len()] == '{');
            } else {
                assert(b[i - a.len() - d.len()] == '{');
            }
        }
    }
    lemma_no_placeholder(adb, n);
    law_text_without_the_part_is_kept(adb, n, spu_name);
    let anb = a + n + b;
    lemma_other_placeholder(a, n, b, r);
    law_text_without_the_part_is_kept(anb, r, d);
    lemma_first_brace(a, n, b);
    law_first_occurrence_is_replaced(a, n, b, spu_name);
    // Two placeholders.
    lemma_no_placeholder(c, r);
    lemma_no_placeholder(c, n);
    law_text_without_the_part_is_kept(c, r, d);
    law_text_without_the_part_is_kept(c, n, spu_name);
    let bnc = b + n + c;
    lemma_first_brace(a, r, bnc);
    law_first_occurrence_is_replaced(a, r, bnc, d);
    lemma_other_placeholder(b, n, c, r);
    law_text_without_the_part_is_kept(bnc, r, d);
    assert(a + r + b + n + c =~= a + r + bnc);
    assert(a + d + bnc =~= adb + n + c);
    lemma_first_brace(adb, n, c);
    law_first_occurrence_is_replaced(adb, n, c, spu_name);
    let whole = a + n + b + r + c;
    assert(whole =~= anb + r + c);
    assert forall|i: int| 0 <= i < anb.len() implies !#[trigger] occurs_at(anb + r + c, r, i) by {
        if occurs_at(anb + r + c, r, i) {
            assert((anb + r + c).subrange(i, i + 9)[0] == anb[i]);
            if i < a.len() {
                assert(a[i] == '{');
            } else if i < a.len() + n.len() {
                let k = i - a.len();
                assert(n[k] == '{');
                assert(k == 0);
                assert((anb + r + c).subrange(i, i + 9)[1] == n[1]);
            } else {
                assert(b[i - a.len() - n.len()] == '{');
            }
        }
    }
    law_first_occurrence_is_replaced(anb, r, c, d);
    let bdc = b + d + c;
    assert(!bdc.contains('{')) by {
        if bdc.contains('{') {
            let i = choose|i: int| 0 <= i < bdc.len() && bdc[i] == '{';
            if i < b.len() {
                assert(b[i] == '{');
            } else if i < b.len() + d.len() {
                assert(d[i - b.len()] == '{');
            } else {
                assert(c[i - b.len() - d.len()] == '{');
            }
        }
    }
    assert(anb + d + c =~= a + n + bdc);
    lemma_first_brace(a, n, bdc);
    law_first_occurrence_is_replaced(a, n, bdc, spu_name);
    lemma_no_placeholder(bdc, n);
    law_text_without_the_part_is_kept(bdc, n, spu_name);
    assert(a + spu_name + bdc =~= a + spu_name + b + d + c);
}

/// The placeholder for a name has none for an index in it, whatever stands around it.
proof fn lemma_other_placeholder(a: Seq<char>, n: Seq<char>, b: Seq<char>, r: Seq<char>)
    requires
        !a.contains('{') && !b.contains('{'),
        n == "{spu_name}"@,
        r == "{replica}"@,
    ensures
        !has_part(a + n + b, r),
{
    reveal_strlit("{replica}");
    reveal_strlit("{spu_name}");
    assert(r[0] == '{' && n[0] == '{' && r[1] == 'r' && n[1] == 's');
    let s = a + n + b;
    if has_part(s, r) {
        let i = choose|i: int| #[trigger] occurs_at(s, r, i);
        assert(s.subrange(i, i + 9)[0] == s[i]);
        assert(s.subrange(i, i + 9)[1] == s[i + 1]);
        if i < a.len() {
            assert(a[i] == '{');
        } else if i < a.len() + n.len() {
            let k = i - a.len();
            assert(n[k] == '{');
            assert(k == 0);
        } else {
            assert(b[i - a.len() - n.len()] == '{');
        }
    }
}

/// The service of a unit stands under the unit's name in the namespace, belongs to the group, carries
/// the unit's name, selects the unit's pod, has the configured type and policy, and each configured
/// annotation, filled in. It shows one port, and a node port exactly where that is configured.
pub proof fn law_service_of_a_unit(
    svc: Service,
    replica: nat,
    spu_name: Seq<char>,
    group: Seq<char>,
    group_uid: Seq<char>,
    config: ScK8Config,
    namespace: Seq<char>,
)
    requires
        is_spu_service(svc, replica, spu_name, group, group_uid, config, namespace),
        unique_keys(config.lb_service_annotations.items()),
    ensures
        opt_text(svc.name) == Some("fluvio-spu-"@ + spu_name),
        opt_text(svc.namespace) == Some(namespace),
        entry_of(svc.labels, "fluvio.io/spu-name"@) == Some(spu_name),
        svc.spec is Some,
        entry_of(svc.spec->0.selector, "statefulset.kubernetes.io/pod-name"@) == Some(
            "fluvio-spg-"@ + spu_name,
        ),
        svc.owners@.len() == 1 && svc.owners@[0].name@ == group && svc.owners@[0].uid@ == group_uid
            && svc.owners@[0].kind@ == "SpuGroup"@ && svc.owners@[0].controller == Some(true),
        svc.spec->0.ports is Some,
        svc.spec->0.ports->0@.len() == 1,
        svc.spec->0.ports->0@[0].port == 9005 && svc.spec->0.ports->0@[0].target_port == Some(9005i32),
        svc.spec->0.ports->0@[0].node_port matches Some(port) ==> {
            &&& config.service matches Some(t) && t.service_type == Some(LoadBalancerType::NodePort)
            &&& config.spu_pod_config.base_node_port matches Some(base) && port == base + replica
        },
        config.service is Some && config.service->0.service_type == Some(LoadBalancerType::NodePort)
            && config.spu_pod_config.base_node_port is Some
            ==> svc.spec->0.ports->0@[0].node_port is Some,
        opt_text(svc.spec->0.service_type) == (match config.service {
            Some(t) => match t.service_type {
                Some(LoadBalancerType::ClusterIP) => Some("ClusterIP"@),
                Some(LoadBalancerType::NodePort) => Some("NodePort"@),
                Some(LoadBalancerType::LoadBalancer) => Some("LoadBalancer"@),
                Some(LoadBalancerType::ExternalName) => Some("ExternalName"@),
                None => None,
            },
            None => None,
        }),
        opt_text(svc.spec->0.external_traffic_policy) == (match config.service {
            Some(t) => match t.external_traffic_policy {
                Some(ExternalTrafficPolicy::Local) => Some("Local"@),
                Some(ExternalTrafficPolicy::Cluster) => Some("Cluster"@),
                None => None,
            },
            None => None,
        }),
        forall|i: int|
            0 <= i < config.lb_service_annotations.items().len() ==> entry_of(
                svc.annotations,
                (#[trigger] config.lb_service_annotations.items()[i]).0,
            ) == Some(filled_in(config.lb_service_annotations.items()[i].1@, replica, spu_name)),
        forall|key: Seq<char>|
            (forall|i: int|
                0 <= i < config.lb_service_annotations.items().len() ==> (
                #[trigger] config.lb_service_annotations.items()[i]).0 != key)
                ==> #[trigger] entry_of(svc.annotations, key) is None,
{
    lemma_one_entry(svc.labels, "fluvio.io/spu-name"@, spu_name);
    lemma_one_entry(
        svc.spec->0.selector,
        "statefulset.kubernetes.io/pod-name"@,
        "fluvio-spg-"@ + spu_name,
    );
    let configured = config.lb_service_annotations.items();
    let filled = filled_annotations(text_items(configured), replica, spu_name);
    assert(filled.len() == configured.len());
    assert forall|i: int| 0 <= i < configured.len() implies entry_of(
        svc.annotations,
        (#[trigger] configured[i]).0,
    ) == Some(filled_in(configured[i].1@, replica, spu_name)) by {
        let items = svc.annotations->0.items();
        assert(text_items(items).len() == items.len());
        assert(filled[i] == (configured[i].0, filled_in(configured[i].1@, replica, spu_name)));
        assert(text_items(items)[i] == (items[i].0, items[i].1@));
        assert(unique_keys(items)) by {
            assert forall|a: int, b: int| 0 <= a < b < items.len() implies (#[trigger] items[a]).0
                != (#[trigger] items[b]).0 by {
                assert(text_items(items)[a].0 == items[a].0 && text_items(items)[b].0 == items[b].0);
                assert(filled[a].0 == configured[a].0 && filled[b].0 == configured[b].0);
                assert(configured[a].0 != configured[b].0);
            }
        }
        lemma_key_index(items, i);
    }
    assert forall|key: Seq<char>|
        (forall|i: int| 0 <= i < configured.len() ==> (#[trigger] configured[i]).0
            != key) implies #[trigger] entry_of(svc.annotations, key) is None by {
        if let Some(a) = svc.annotations {
            let items = a.items();
            if has_key(items, key) {
                let i = key_index(items, key);
                assert(text_items(items).len() == items.len());
                assert(text_items(items)[i].0 == items[i].0);
                assert(filled[i].0 == configured[i].0);
            }
        }
    }
}

proof fn lemma_one_entry(map: Option<StringMap<String>>, key: Seq<char>, value: Seq<char>)
    requires
        map matches Some(m) && text_items(m.items()) == Seq::<(Seq<char>, Seq<char>)>::empty().push(
            (key, value),
        ),
    ensures
        entry_of(map, key) == Some(value),
{
    let items = map->0.items();
    assert(text_items(items).len() == items.len());
    assert(text_items(items)[0] == (key, value));
    assert(items[0].0 == key && items[0].1@ == value);
    lemma_key_index(items, 0);
}

/// The node ports of a group fit where none is configured, and else where the base and the index of the
/// last unit make no more than 65535.
pub proof fn law_when_node_ports_fit(config: ScK8Config, replica: nat)
    ensures
        node_port_fits(config, replica) <==> !(config.service is Some && config.service->0.service_type
            == Some(LoadBalancerType::NodePort)) || config.spu_pod_config.base_node_port is None
            || config.spu_pod_config.base_node_port->0 + replica <= 65535,
{
}

/// Where a service is reached. It is not where it has no specification, no port, or, as a service with
/// node ports, no node port. Else it is reached under its first port, or the node port of that; at
/// the addresses of its load balancer, unless it has node ports, then at the annotated address, as an
/// IP address where it is one and as a host otherwise; and at its own name where there is none of
/// these and it is reached inside the cluster alone.
pub proof fn law_where_a_service_is_reached(svc: Service, ip: Option<Seq<char>>, first: ServicePort)
    requires
        svc.spec is Some && svc.spec->0.ports is Some && svc.spec->0.ports->0@.len() > 0
            ==> svc.spec->0.ports->0@[0] == first,
    ensures
        svc.spec is None ==> service_ingress(svc, ip) == Err::<PortModel, IngressError>(
            IngressError::NoSpec,
        ),
        svc.spec is Some && (svc.spec->0.ports is None || svc.spec->0.ports->0@.len() == 0)
            ==> service_ingress(svc, ip) == Err::<PortModel, IngressError>(IngressError::NoPorts),
        svc.spec is Some && svc.spec->0.ports is Some && svc.spec->0.ports->0@.len() > 0 ==> {
            let kind = opt_text(svc.spec->0.service_type);
            let inside = kind is None || kind == Some("ClusterIP"@) || kind->0.len() == 0;
            let address = entry_of(svc.annotations, "fluvio.io/ingress-address"@);
            let name = (if svc.name is Some {
                svc.name->0@
            } else {
                Seq::empty()
            }) + "."@ + (if svc.namespace is Some {
                svc.namespace->0@
            } else {
                "default"@
            }) + ".svc.cluster.local"@;
            if kind == Some("NodePort"@) && first.node_port is None {
                service_ingress(svc, ip) == Err::<PortModel, IngressError>(IngressError::NoNodePort)
            } else {
                &&& service_ingress(svc, ip) matches Ok(found)
                &&& found.encryption == EncryptionEnum::PLAINTEXT
                &&& kind == Some("NodePort"@) ==> found.port == first.node_port->0 as u16
                &&& kind != Some("NodePort"@) ==> found.port == first.port as u16
                &&& kind == Some("NodePort"@) && address is None ==> found.ingress.len() == 0
                &&& kind == Some("NodePort"@) && address is Some ==> found.ingress.len() == 1
                &&& kind != Some("NodePort"@) ==> forall|i: int|
                    0 <= i < svc.balancer@.len() ==> i < found.ingress.len()
                        && #[trigger] svc.balancer@[i]@ == found.ingress[i]
                &&& kind != Some("NodePort"@) && (address is Some || svc.balancer@.len() > 0
                    || !inside) ==> found.ingress.len() == svc.balancer@.len() + (if address is Some {
                    1int
                } else {
                    0
                })
                &&& address is Some ==> found.ingress.last() == (match ip {
                    Some(a) => AddrModel { hostname: None, ip: Some(a) },
                    None => AddrModel { hostname: address, ip: None },
                })
                &&& inside && address is None && svc.balancer@.len() == 0 ==> found.ingress == seq![
                    AddrModel { hostname: Some(name), ip: None },
                ]
            }
        },
{
    reveal_strlit("ClusterIP");
    reveal_strlit("NodePort");
    assert("ClusterIP"@.len() == 9 && "NodePort"@.len() == 8);
    if service_ingress(svc, ip) is Ok {
        let found = service_ingress(svc, ip)->Ok_0;
        let models = addr_models(svc.balancer@);
        assert(models.len() == svc.balancer@.len());
        assert forall|i: int| 0 <= i < svc.balancer@.len() implies #[trigger] svc.balancer@[i]@
            == models[i] by {}
        let name = crate::k8::ingress::service_fqdn(svc);
        if crate::k8::ingress::annotated(svc, ip).len() == 0 && models.len() == 0 {
            assert(Seq::<AddrModel>::empty().push(AddrModel { hostname: Some(name), ip: None })
                =~= seq![AddrModel { hostname: Some(name), ip: None }]);
            assert(models + crate::k8::ingress::annotated(svc, ip) =~= Seq::empty());
        }
    }
}

} // verus!
