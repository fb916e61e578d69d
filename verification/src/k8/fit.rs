//! How the objects of a group fit together.
use vstd::prelude::*;

use crate::decimal::{digits, law_digits_distinct};
use crate::json::{lemma_find_member, lemma_find_none, lemma_find_push, JsonTree};
use crate::k8::group::{owned_by_uid, KubeObject};
use crate::k8::ingress::{
    annotated, decides, entry_of, law_last_service_decides, port_models, service_fqdn, service_ingress,
    service_ports, service_type, services_map, IngressError, ListedService, INGRESS_ADDRESS,
};
use crate::k8::objects::{
    LoadBalancerType, OwnerReference, ScK8Config, TlsConfig, SPU_NAME_LABEL, SPU_PUBLIC_PORT,
};
use crate::k8::service::{addr_models, AddrModel, EncryptionEnum, PortModel, Service};
use crate::k8::set_controller::{
    first_conflict, holds_foreign_id, law_conflict_iff_in_the_way,
    law_group_is_rejected_iff_an_id_is_taken,
};
use crate::k8::spu_controller::{endpoint_of, SpuAction, SpuRun};
use crate::k8::spu_object::{private_host, public_host, spu_object};
use crate::k8::spu_service::{
    configured_type, filled_annotations, is_spu_service, unit_name, POD_NAME_LABEL,
};
use crate::k8::statefulset::{owned_metadata, pod_volumes, set_name, volume_mounts};
use crate::string_map::{has_key, key_index, lemma_key_index, text_items, StringMap};
use crate::text::opt_text;

verus! {

/// The name that the cluster gives the pod with a given index of the stateful set of a group.
pub open spec fn pod_name(group: Seq<char>, index: nat) -> Seq<char> {
    set_name(group) + "-"@ + digits(index)
}

/// No two units of a group have the same name.
pub proof fn law_unit_names_differ(group: Seq<char>, i: nat, j: nat)
    requires
        i != j,
    ensures
        unit_name(group, i) != unit_name(group, j),
{
    law_digits_distinct(i, j);
    let start = group + "-"@;
    assert(unit_name(group, i).skip(start.len() as int) =~= digits(i));
    assert(unit_name(group, j).skip(start.len() as int) =~= digits(j));
}

/// The service of a unit selects the pod of the unit and no other one.
pub proof fn law_service_selects_its_pod(
    svc: Service,
    index: nat,
    group: Seq<char>,
    group_uid: Seq<char>,
    config: ScK8Config,
    namespace: Seq<char>,
)
    requires
        is_spu_service(svc, index, unit_name(group, index), group, group_uid, config, namespace),
    ensures
        text_items(svc.spec->0.selector->0.items()) == Seq::<(Seq<char>, Seq<char>)>::empty().push(
            (POD_NAME_LABEL@, pod_name(group, index)),
        ),
{
    assert("fluvio-spg-"@ + unit_name(group, index) =~= pod_name(group, index));
}

/// A unit of the group `main` is reached under the name that the cluster gives its pod. The host of
/// a unit always has the pods of this group in it: for another group it names no pod.
pub proof fn law_private_host_names_the_pod(index: nat, namespace: Seq<char>)
    ensures
        private_host("main"@, index, namespace) == pod_name("main"@, index) + "."@ + set_name(
            "main"@,
        ) + "."@ + namespace + ".svc.cluster.local"@,
{
    reveal_strlit("fluvio-spg-main-");
    reveal_strlit("fluvio-spg-");
    reveal_strlit(".fluvio-spg-");
    reveal_strlit("main");
    reveal_strlit("-");
    reveal_strlit(".");
    assert("fluvio-spg-main-"@ =~= "fluvio-spg-"@ + "main"@ + "-"@);
    assert(".fluvio-spg-"@ =~= "."@ + "fluvio-spg-"@);
    assert(private_host("main"@, index, namespace) =~= pod_name("main"@, index) + "."@ + set_name(
        "main"@,
    ) + "."@ + namespace + ".svc.cluster.local"@);
}

/// Annotations of a service that were filled in from configured ones have no other keys.
proof fn lemma_no_new_annotation(
    annotations: Option<StringMap<String>>,
    configured: Seq<(Seq<char>, Seq<char>)>,
    index: nat,
    spu_name: Seq<char>,
    key: Seq<char>,
)
    requires
        annotations matches Some(a) ==> text_items(a.items()) == filled_annotations(
            configured,
            index,
            spu_name,
        ),
        !has_key(configured, key),
    ensures
        entry_of(annotations, key) is None,
{
    if let Some(a) = annotations {
        if has_key(a.items(), key) {
            let i = key_index(a.items(), key);
            let filled = filled_annotations(configured, index, spu_name);
            assert(text_items(a.items()).len() == a.items().len());
            assert(filled.len() == configured.len());
            assert(text_items(a.items())[i].0 == key);
            assert(filled[i].0 == configured[i].0);
            assert(configured[i].0 == key);
        }
    }
}

/// A service that is reached inside the cluster, and has no address annotated, is reached under the
/// host that the object of its unit names, and under the usual port.
pub proof fn law_cluster_service_is_reached_at_its_host(
    svc: Service,
    annotated_ip: Option<Seq<char>>,
    index: nat,
    spu_name: Seq<char>,
    group: Seq<char>,
    group_uid: Seq<char>,
    config: ScK8Config,
    namespace: Seq<char>,
)
    requires
        is_spu_service(svc, index, spu_name, group, group_uid, config, namespace),
        configured_type(config) matches Some(ty) ==> ty == LoadBalancerType::ClusterIP,
        !has_key(text_items(config.lb_service_annotations.items()), INGRESS_ADDRESS@),
    ensures
        service_ingress(svc, annotated_ip) == Ok::<PortModel, IngressError>(
            PortModel {
                port: SPU_PUBLIC_PORT,
                ingress: Seq::<AddrModel>::empty().push(
                    AddrModel { hostname: Some(public_host(spu_name, namespace)), ip: None },
                ),
                encryption: EncryptionEnum::PLAINTEXT,
            },
        ),
{
    reveal_strlit("NodePort");
    reveal_strlit("ClusterIP");
    assert("NodePort"@.len() == 8 && "ClusterIP"@.len() == 9);
    lemma_no_new_annotation(
        svc.annotations,
        text_items(config.lb_service_annotations.items()),
        index,
        spu_name,
        INGRESS_ADDRESS@,
    );
    assert(service_type(svc) == "ClusterIP"@);
    let found = addr_models(svc.balancer@) + annotated(svc, annotated_ip);
    assert(found =~= Seq::empty());
    assert(service_fqdn(svc) =~= public_host(spu_name, namespace));
    let port = service_ports(svc)[0].port;
    assert(port as u16 == SPU_PUBLIC_PORT) by (bit_vector)
        requires
            port == 9005i32,
            SPU_PUBLIC_PORT == 9005u16,
    ;
}

/// A service with a node port is reached under that port: the configured base and the index of the
/// unit.
pub proof fn law_node_port_service_is_reached_at_its_port(
    svc: Service,
    annotated_ip: Option<Seq<char>>,
    index: nat,
    spu_name: Seq<char>,
    group: Seq<char>,
    group_uid: Seq<char>,
    config: ScK8Config,
    namespace: Seq<char>,
    base: u16,
)
    requires
        is_spu_service(svc, index, spu_name, group, group_uid, config, namespace),
        configured_type(config) == Some(LoadBalancerType::NodePort),
        config.spu_pod_config.base_node_port == Some(base),
        base + index <= u16::MAX,
    ensures
        service_ingress(svc, annotated_ip) matches Ok(found) && found.port == base + index,
{
    let port = service_ports(svc)[0].node_port->0;
    assert(port == base + index);
    assert(0 <= port <= 0xffff ==> port as u16 == port) by (bit_vector);
}

/// From the services of the units of a group, in whatever order they are listed, each unit is
/// reached where its own service says, if that shows an address. `indexes` are the indexes of the
/// units.
pub proof fn law_units_are_reached_at_their_services(
    services: Seq<ListedService>,
    indexes: Seq<nat>,
    group: Seq<char>,
    group_uid: Seq<char>,
    config: ScK8Config,
    namespace: Seq<char>,
)
    requires
        services.len() == indexes.len(),
        forall|i: int, j: int|
            0 <= i < j < indexes.len() ==> #[trigger] indexes[i] != #[trigger] indexes[j],
        forall|i: int|
            0 <= i < services.len() ==> is_spu_service(
                (#[trigger] services[i]).service,
                indexes[i],
                unit_name(group, indexes[i]),
                group,
                group_uid,
                config,
                namespace,
            ),
    ensures
        forall|i: int|
            0 <= i < services.len() ==> (match service_ingress(
                (#[trigger] services[i]).service,
                opt_text(services[i].annotated_ip),
            ) {
                Ok(port) => {
                    &&& services_map(services).contains_key(unit_name(group, indexes[i]))
                    &&& services_map(services)[unit_name(group, indexes[i])] == port
                },
                Err(_) => !services_map(services).contains_key(unit_name(group, indexes[i])),
            }),
{
    assert forall|i: int| 0 <= i < services.len() implies (match service_ingress(
        (#[trigger] services[i]).service,
        opt_text(services[i].annotated_ip),
    ) {
        Ok(port) => {
            &&& services_map(services).contains_key(unit_name(group, indexes[i]))
            &&& services_map(services)[unit_name(group, indexes[i])] == port
        },
        Err(_) => !services_map(services).contains_key(unit_name(group, indexes[i])),
    }) by {
        let name = unit_name(group, indexes[i]);
        law_last_service_decides(services, name);
        assert forall|k: int| 0 <= k < services.len() && k != i implies !#[trigger] decides(
            services[k],
            name,
        ) by {
            lemma_label_of_unit(services[k].service, unit_name(group, indexes[k]));
            law_unit_names_differ(group, indexes[k], indexes[i]);
        }
        lemma_label_of_unit(services[i].service, name);
        let found = service_ingress(services[i].service, opt_text(services[i].annotated_ip));
        if found is Ok {
            assert(decides(services[i], name));
        } else {
            assert(!decides(services[i], name));
        }
    }
}

/// The service of a unit carries its name.
proof fn lemma_label_of_unit(svc: Service, spu_name: Seq<char>)
    requires
        svc.labels matches Some(labels) && text_items(labels.items()) == Seq::<
            (Seq<char>, Seq<char>),
        >::empty().push((SPU_NAME_LABEL@, spu_name)),
    ensures
        entry_of(svc.labels, SPU_NAME_LABEL@) == Some(spu_name),
{
    let labels = svc.labels->0;
    assert(text_items(labels.items()).len() == labels.items().len());
    assert(text_items(labels.items())[0] == (SPU_NAME_LABEL@, spu_name));
    assert(labels.items()[0].0 == SPU_NAME_LABEL@);
    assert(labels.items()[0].1@ == spu_name);
    lemma_key_index(labels.items(), 0);
}

/// The object of a unit always has an address: where no service shows one, that of the unit's own
/// service.
pub proof fn law_unit_has_an_address(
    spu_name: Seq<char>,
    group: Seq<char>,
    index: nat,
    spu_id: int,
    endpoint: PortModel,
    namespace: Seq<char>,
    owner: OwnerReference,
)
    ensures
        ({
            let object = spu_object(
                spu_name,
                group,
                index,
                spu_id,
                endpoint,
                namespace,
                owner,
            );
            let public = object.get("spec"@)->0.get("publicEndpoint"@)->0;
            &&& public.get("ingress"@) matches Some(JsonTree::Array(list))
            &&& list.len() > 0
            &&& endpoint.ingress.len() == 0 ==> list.len() == 1 && list[0].get("hostname"@) == Some(
                JsonTree::Text(public_host(spu_name, namespace)),
            )
        }),
{
    reveal_strlit("apiVersion");
    reveal_strlit("kind");
    reveal_strlit("metadata");
    reveal_strlit("spec");
    reveal_strlit("spuId");
    reveal_strlit("spuType");
    reveal_strlit("publicEndpoint");
    reveal_strlit("port");
    reveal_strlit("ingress");
    assert("apiVersion"@.len() == 10 && "kind"@.len() == 4 && "metadata"@.len() == 8 && "spec"@.len()
        == 4 && "kind"@[0] == 'k' && "spec"@[0] == 's');
    assert("spuId"@.len() == 5 && "spuType"@.len() == 7 && "publicEndpoint"@.len() == 14);
    assert("port"@.len() == 4 && "ingress"@.len() == 7);
    let object = spu_object(spu_name, group, index, spu_id, endpoint, namespace, owner);
    lemma_find_member(object->Object_0, 3);
    let spec = object->Object_0[3].1;
    lemma_find_member(spec->Object_0, 2);
    let public = spec->Object_0[2].1;
    lemma_find_member(public->Object_0, 1);
    let list = public->Object_0[1].1->Array_0;
    if endpoint.ingress.len() == 0 {
        lemma_find_member(list[0]->Object_0, 0);
    }
}

/// The object that is applied for a unit has the name of the group and the unit's index for its name,
/// and the group's first identifier plus the index for its identifier.
pub proof fn law_applied_unit_has_its_identifier(run: SpuRun, action: SpuAction)
    requires
        run.applies(action),
    ensures
        ({
            let object = action->object@;
            let spec = object.get("spec"@)->0;
            let metadata = object.get("metadata"@)->0;
            let name = run.name@ + seq!['-'] + digits(run.index as nat);
            &&& action is Apply
            &&& action->name@ == name
            &&& object.get("spec"@) is Some
            &&& spec.get("spuId"@) == Some(JsonTree::Int(run.min_id + run.index))
            &&& spec.get("spuType"@) == Some(JsonTree::Text("Managed"@))
            &&& metadata.get("name"@) == Some(JsonTree::Text(name))
            &&& metadata.get("namespace"@) == Some(JsonTree::Text(run.namespace@))
        }),
{
    broadcast use lemma_find_push, lemma_find_none;

    reveal_strlit("apiVersion");
    reveal_strlit("kind");
    reveal_strlit("metadata");
    reveal_strlit("spec");
    reveal_strlit("spuId");
    reveal_strlit("spuType");
    reveal_strlit("name");
    reveal_strlit("namespace");
    reveal_strlit("-");
    assert("-"@ =~= seq!['-']);
    assert("apiVersion"@.len() == 10 && "kind"@.len() == 4 && "metadata"@.len() == 8 && "spec"@.len()
        == 4 && "kind"@[0] == 'k' && "spec"@[0] == 's');
    assert("spuId"@.len() == 5 && "spuType"@.len() == 7 && "name"@.len() == 4 && "namespace"@.len()
        == 9);
    let spu_name = unit_name(run.name@, run.index as nat);
    let owner = choose|owner: OwnerReference| #[trigger]
        owner.is_group(run.name@, run.uid@) && action->object@ == spu_object(
            spu_name,
            run.name@,
            run.index as nat,
            run.min_id + run.index,
            endpoint_of(port_models(run.services@), spu_name),
            run.namespace@,
            owner,
        );
    let object = action->object@;
    let metadata = owned_metadata(spu_name, run.namespace@, owner);
    assert(object.get("metadata"@) == Some(metadata));
    assert(metadata.get("name"@) == Some(JsonTree::Text(spu_name)));
    assert(metadata.get("namespace"@) == Some(JsonTree::Text(run.namespace@)));
    let spec = object.get("spec"@)->0;
    assert(object.get("spec"@) is Some);
    assert(spec.get("spuId"@) == Some(JsonTree::Int(run.min_id + run.index)));
    assert(spec.get("spuType"@) == Some(JsonTree::Text("Managed"@)));
}

/// Where a group is not rejected, no unit that it applies takes the identifier of a unit that it does
/// not own; and where such a unit has the identifier of one that it would apply, it is rejected.
pub proof fn law_applied_unit_takes_no_foreign_identifier(
    spus: Seq<KubeObject>,
    i: int,
    replicas: int,
    run: SpuRun,
    action: SpuAction,
)
    requires
        0 <= i < spus.len(),
        run.applies(action),
        run.index < replicas,
        run.min_id + replicas <= i32::MAX,
        spus[i].data@.get("spec"@) is Some,
        spus[i].data@.get("spec"@)->0.get("spuId"@) == action->object@.get("spec"@)->0.get(
            "spuId"@,
        ),
        forall|o: int|
            0 <= o < spus[i].owners@.len() ==> (#[trigger] spus[i].owners@[o]).uid@ != run.uid@,
    ensures
        first_conflict(spus, run.uid@, run.min_id as int, run.min_id + replicas) is Some,
{
    law_applied_unit_has_its_identifier(run, action);
    law_group_is_rejected_iff_an_id_is_taken(spus, run.uid@, run.min_id as int, replicas);
    let id = run.min_id + run.index;
    assert(0 <= run.index < 0x1_0000);
    assert((id as i64) as i32 == id);
    assert(holds_foreign_id(spus[i], run.uid@, run.min_id + run.index as int));
}

/// The units that a group owns do not stand in its way, wherever its identifiers lie.
pub proof fn law_own_units_are_no_conflict(
    spus: Seq<KubeObject>,
    uid: Seq<char>,
    from: int,
    to: int,
)
    requires
        forall|i: int| 0 <= i < spus.len() ==> owned_by_uid((#[trigger] spus[i]).owners@, uid),
    ensures
        first_conflict(spus, uid, from, to) is None,
{
    law_conflict_iff_in_the_way(spus, uid, from, to);
}

/// Whether one of the volumes has the name given.
pub open spec fn named(volumes: Seq<JsonTree>, name: JsonTree) -> bool {
    exists|i: int| 0 <= i < volumes.len() && (#[trigger] volumes[i]).get("name"@) == Some(name)
}

/// All that is mounted into the container is there: the data, which the set claims under this name,
/// or a volume of the pod.
pub proof fn law_mounts_have_volumes(tls: Option<TlsConfig>, i: int)
    requires
        0 <= i < volume_mounts(tls).len(),
    ensures
        ({
            let name = volume_mounts(tls)[i].get("name"@);
            &&& name is Some
            &&& name->0 == JsonTree::Text("data"@) || named(pod_volumes(tls), name->0)
        }),
{
    let mounts = volume_mounts(tls);
    let volumes = pod_volumes(tls);
    lemma_find_member(mounts[i]->Object_0, 0);
    if i > 0 {
        assert(i - 1 < volumes.len());
        lemma_find_member(volumes[i - 1]->Object_0, 0);
        assert(volumes[i - 1].get("name"@) == mounts[i].get("name"@));
    }
}

} // verus!
