use fluvio_control::json::Json;
use fluvio_control::k8::group::KubeObject;
use fluvio_control::k8::ingress::{
    build_services_map, get_ingress_from_k8s_service, IngressError, ListedService, INGRESS_ADDRESS,
};
use fluvio_control::k8::objects::{LoadBalancerType, OwnerReference, ScK8Config, ServiceTemplate};
use fluvio_control::k8::service::{
    EncryptionEnum, IngressAddr, IngressPort, Service, ServicePort, ServiceSpec,
};
use fluvio_control::k8::service_controller::{
    load_spu_k8_config, plan_units, ApplyReply, ConfigReply, ConfigSource, ServiceAction,
    ServiceRun, ServiceStage,
};
use fluvio_control::k8::set_controller::{SetAction, SetRun, SetStage};
use fluvio_control::k8::spg_group::{
    is_conflict, K8MetaItem, MetadataContext, MetadataStoreObject, SpuGroupObj, SpuGroupSpec,
    SpuType, StoredSpu,
};
use fluvio_control::k8::spu_controller::{SpuAction, SpuRun, SpuStage};
use fluvio_control::spg_status::SpuGroupStatus;
use fluvio_control::string_map::StringMap;

fn object(members: Vec<(&str, Json)>) -> Json {
    Json::Object(
        members
            .into_iter()
            .map(|(key, value)| (key.to_string(), value))
            .collect(),
    )
}

fn strings(list: &[&str]) -> Vec<String> {
    list.iter().map(|s| s.to_string()).collect()
}

fn map(list: &[(&str, &str)]) -> StringMap<String> {
    let mut map = StringMap::new();
    for (key, value) in list {
        map.insert(key.to_string(), value.to_string());
    }
    map
}

fn group(spec: Option<Json>, status: Option<Json>) -> KubeObject {
    let mut members = vec![];
    if let Some(spec) = spec {
        members.push(("spec", spec));
    }
    if let Some(status) = status {
        members.push(("status", status));
    }
    KubeObject {
        name: "g".to_string(),
        namespace: None,
        uid: Some("uid-g".to_string()),
        owners: vec![],
        data: object(members),
    }
}

fn sized(replicas: i64, min_id: i64) -> Option<Json> {
    Some(object(vec![
        ("replicas", Json::integer(replicas)),
        ("minId", Json::integer(min_id)),
    ]))
}

fn unit(name: &str, id: i64, owner: Option<(&str, &str)>) -> KubeObject {
    KubeObject {
        name: name.to_string(),
        namespace: Some("ns".to_string()),
        uid: None,
        owners: owner
            .map(|(group, uid)| OwnerReference::group(group, uid))
            .into_iter()
            .collect(),
        data: object(vec![("spec", object(vec![("spuId", Json::integer(id))]))]),
    }
}

fn text<'a>(json: &'a Json, path: &[&str]) -> Option<&'a String> {
    let mut at = json;
    for key in path {
        at = at.get(key)?;
    }
    at.as_str()
}

#[test]
fn a_group_without_a_specification() {
    assert_eq!(SetRun::start(&group(None, None), "default").unwrap_err(), 60);
    assert_eq!(plan_units(&group(None, None), "default").unwrap_err(), 60);
    assert_eq!(SpuRun::start(&group(None, None), "default").unwrap_err(), 60);
}

#[test]
fn what_a_group_asks_for() {
    let run = SetRun::start(&group(sized(3, 100), None), "fluvio").unwrap();
    assert_eq!((run.replicas, run.min_id), (3, 100));
    assert_eq!((run.namespace.as_str(), run.uid.as_str()), ("fluvio", "uid-g"));
    let run = SetRun::start(&group(Some(object(vec![])), None), "fluvio").unwrap();
    assert_eq!((run.replicas, run.min_id), (1, 0));
    let odd = Some(object(vec![
        ("replicas", Json::text("2")),
        ("minId", Json::text("2")),
    ]));
    let run = SetRun::start(&group(odd, None), "fluvio").unwrap();
    assert_eq!((run.replicas, run.min_id), (1, 0));
    let plan = plan_units(&group(sized(65537, 0), None), "fluvio").unwrap();
    assert_eq!(plan.replicas, 1);
}

#[test]
fn a_group_whose_identifiers_are_taken() {
    let mut run = SetRun::start(&group(sized(3, 100), None), "ns").unwrap();
    let spus = vec![
        unit("g-0", 100, Some(("g", "uid-g"))),
        unit("x", 99, None),
        unit("y", 103, None),
        unit("z", 102, Some(("other", "uid-o"))),
        unit("w", 101, None),
    ];
    match run.listed(&spus) {
        SetAction::PatchStatus { patch } => {
            assert_eq!(text(&patch, &["kind"]).unwrap(), "SpuGroup");
            assert_eq!(text(&patch, &["apiVersion"]).unwrap(), "fluvio.infinyon.com/v1");
            assert_eq!(text(&patch, &["status", "resolution"]).unwrap(), "Invalid");
            assert_eq!(
                text(&patch, &["status", "reason"]).unwrap(),
                "SPU ID conflict with existing id: 102"
            );
        }
        other => panic!("{other:?}"),
    }
    assert_eq!(run.stage, SetStage::Rejecting);
    assert!(matches!(run.status_set(), SetAction::Requeue { seconds: 30 }));
}

#[test]
fn a_group_is_reserved_and_applied() {
    let mut run = SetRun::start(&group(sized(3, 100), None), "ns").unwrap();
    match run.listed(&vec![unit("g-0", 100, Some(("g", "uid-g")))]) {
        SetAction::PatchStatus { patch } => {
            assert_eq!(text(&patch, &["status", "resolution"]).unwrap(), "Reserved");
            assert!(text(&patch, &["status", "reason"]).is_none());
        }
        other => panic!("{other:?}"),
    }
    assert!(matches!(run.status_set(), SetAction::LoadConfig));
    match run.config_loaded(&Some(ScK8Config::default()), &None, &None) {
        SetAction::Apply { name, service, set } => {
            assert_eq!(name, "fluvio-spg-g");
            assert_eq!(text(&service, &["kind"]).unwrap(), "Service");
            assert_eq!(text(&set, &["metadata", "namespace"]).unwrap(), "ns");
            assert_eq!(
                set.get("spec").unwrap().get("replicas").unwrap().as_i64(),
                Some(3)
            );
        }
        other => panic!("{other:?}"),
    }
    assert!(matches!(run.applied(), SetAction::Requeue { seconds: 300 }));
    assert_eq!(run.stage, SetStage::Done);
}

#[test]
fn a_reserved_group_is_not_told_again() {
    let status = Some(object(vec![("resolution", Json::text("Reserved"))]));
    let mut run = SetRun::start(&group(sized(1, 0), status), "ns").unwrap();
    assert!(matches!(run.listed(&vec![]), SetAction::LoadConfig));
    assert!(matches!(
        run.config_loaded(&None, &None, &None),
        SetAction::Requeue { seconds: 30 }
    ));
}

#[test]
fn where_the_configuration_comes_from() {
    match load_spu_k8_config(ConfigReply::Found(Some(map(&[("image", "x")])))) {
        ConfigSource::Entries(entries) => assert_eq!(entries.get("image").unwrap(), "x"),
        other => panic!("{other:?}"),
    }
    match load_spu_k8_config(ConfigReply::Found(None)) {
        ConfigSource::Entries(entries) => assert!(entries.is_empty()),
        other => panic!("{other:?}"),
    }
    assert!(matches!(
        load_spu_k8_config(ConfigReply::Refused(404)),
        ConfigSource::Defaults
    ));
    assert!(matches!(
        load_spu_k8_config(ConfigReply::Refused(403)),
        ConfigSource::Unavailable
    ));
    assert!(matches!(
        load_spu_k8_config(ConfigReply::Failed),
        ConfigSource::Unavailable
    ));
}

fn applied_name(action: &ServiceAction) -> &str {
    match action {
        ServiceAction::Apply { name, .. } => name,
        other => panic!("{other:?}"),
    }
}

#[test]
fn services_are_applied_one_by_one() {
    let plan = plan_units(&group(sized(2, 0), None), "ns").unwrap();
    let (mut run, action) = ServiceRun::start(plan, Some(ScK8Config::default())).unwrap();
    assert_eq!(applied_name(&action), "fluvio-spu-g-0");
    match run.applied(ApplyReply::Refused(422)) {
        ServiceAction::Delete { name } => assert_eq!(name, "fluvio-spu-g-0"),
        other => panic!("{other:?}"),
    }
    assert_eq!(applied_name(&run.deleted()), "fluvio-spu-g-0");
    assert_eq!(applied_name(&run.applied(ApplyReply::Applied)), "fluvio-spu-g-1");
    assert!(matches!(run.applied(ApplyReply::Applied), ServiceAction::List));
    let names = strings(&[
        "fluvio-spu-g-0",
        "fluvio-spu-g-2",
        "fluvio-spu-g-x",
        "fluvio-spu-gg-9",
        "fluvio-spu-g-70000",
        "fluvio-spu-g-+5",
        "fluvio-spu-g-",
    ]);
    match run.listed(&names) {
        ServiceAction::DeleteAll { names } => {
            assert_eq!(names, strings(&["fluvio-spu-g-2", "fluvio-spu-g-+5"]))
        }
        other => panic!("{other:?}"),
    }
    assert!(matches!(run.cleaned(), ServiceAction::Requeue { seconds: 300 }));
}

#[test]
fn a_service_is_made_anew_only_once() {
    let plan = plan_units(&group(sized(1, 0), None), "ns").unwrap();
    let (mut run, _) = ServiceRun::start(plan, Some(ScK8Config::default())).unwrap();
    assert!(matches!(
        run.applied(ApplyReply::Refused(422)),
        ServiceAction::Delete { .. }
    ));
    run.deleted();
    assert!(matches!(
        run.applied(ApplyReply::Refused(422)),
        ServiceAction::Fail
    ));
    assert_eq!(run.stage, ServiceStage::Done);
}

#[test]
fn other_refusals_end_the_run() {
    for reply in [ApplyReply::Refused(500), ApplyReply::Failed] {
        let plan = plan_units(&group(sized(1, 0), None), "ns").unwrap();
        let (mut run, _) = ServiceRun::start(plan, Some(ScK8Config::default())).unwrap();
        assert!(matches!(run.applied(reply), ServiceAction::Fail));
    }
    let plan = plan_units(&group(sized(1, 0), None), "ns").unwrap();
    assert_eq!(ServiceRun::start(plan, None).unwrap_err(), 30);
    let plan = plan_units(&group(sized(0, 0), None), "ns").unwrap();
    let (_, action) = ServiceRun::start(plan, Some(ScK8Config::default())).unwrap();
    assert!(matches!(action, ServiceAction::List));
}

#[test]
fn node_ports_follow_the_index() {
    let config = ScK8Config {
        service: Some(ServiceTemplate {
            service_type: Some(LoadBalancerType::NodePort),
            external_traffic_policy: None,
        }),
        ..Default::default()
    };
    let plan = plan_units(&group(sized(1, 0), None), "ns").unwrap();
    let (_, action) = ServiceRun::start(plan, Some(config)).unwrap();
    match action {
        ServiceAction::Apply { service, .. } => {
            assert_eq!(service.spec.unwrap().ports.unwrap()[0].node_port, None)
        }
        other => panic!("{other:?}"),
    }
}

fn service(service_type: Option<&str>, node_port: Option<i32>) -> Service {
    Service {
        name: Some("fluvio-spu-g-0".to_string()),
        namespace: Some("ns".to_string()),
        labels: Some(map(&[("fluvio.io/spu-name", "g-0")])),
        annotations: None,
        owners: vec![],
        spec: Some(ServiceSpec {
            selector: None,
            service_type: service_type.map(|s| s.to_string()),
            ports: Some(vec![ServicePort {
                port: 9005,
                target_port: None,
                node_port,
            }]),
            external_traffic_policy: None,
        }),
        balancer: vec![],
    }
}

fn listed(service: Service) -> ListedService {
    ListedService {
        service,
        annotated_ip: None,
    }
}

fn host(name: &str) -> IngressAddr {
    IngressAddr {
        hostname: Some(name.to_string()),
        ip: None,
    }
}

#[test]
fn where_a_service_is_reached() {
    let fqdn = "fluvio-spu-g-0.ns.svc.cluster.local";
    for kind in [None, Some("ClusterIP"), Some("")] {
        let found = get_ingress_from_k8s_service(&service(kind, None), &None).unwrap();
        assert_eq!(found.port, 9005);
        assert_eq!(found.ingress, vec![host(fqdn)]);
        assert_eq!(found.encryption, EncryptionEnum::PLAINTEXT);
    }
    let mut bare = service(None, None);
    bare.name = None;
    bare.namespace = None;
    assert_eq!(
        get_ingress_from_k8s_service(&bare, &None).unwrap().ingress,
        vec![host(".default.svc.cluster.local")]
    );

    let mut balanced = service(Some("LoadBalancer"), Some(30001));
    assert!(get_ingress_from_k8s_service(&balanced, &None).unwrap().ingress.is_empty());
    balanced.balancer = vec![host("lb.example.com")];
    balanced.annotations = Some(map(&[(INGRESS_ADDRESS, "extra.example.com")]));
    let found = get_ingress_from_k8s_service(&balanced, &None).unwrap();
    assert_eq!(found.port, 9005);
    assert_eq!(found.ingress, vec![host("lb.example.com"), host("extra.example.com")]);
}

#[test]
fn a_node_port_service() {
    let mut svc = service(Some("NodePort"), Some(30001));
    svc.balancer = vec![host("ignored")];
    svc.annotations = Some(map(&[("fluvio.io/ingress-address", "10.0.0.7")]));
    let found = get_ingress_from_k8s_service(&svc, &Some("10.0.0.7".to_string())).unwrap();
    assert_eq!(found.port, 30001);
    assert_eq!(
        found.ingress,
        vec![IngressAddr {
            hostname: None,
            ip: Some("10.0.0.7".to_string())
        }]
    );
}

#[test]
fn services_that_show_no_address() {
    let mut svc = service(Some("NodePort"), None);
    let error = get_ingress_from_k8s_service(&svc, &None).unwrap_err();
    assert_eq!(error, IngressError::NoNodePort);
    assert_eq!(error.text(), "SPU service missing NodePort");
    svc.spec.as_mut().unwrap().ports = Some(vec![]);
    let error = get_ingress_from_k8s_service(&svc, &None).unwrap_err();
    assert_eq!(error, IngressError::NoPorts);
    assert_eq!(error.text(), "service has no ports");
    svc.spec.as_mut().unwrap().ports = None;
    assert_eq!(get_ingress_from_k8s_service(&svc, &None).unwrap_err(), IngressError::NoPorts);
    svc.spec = None;
    let error = get_ingress_from_k8s_service(&svc, &None).unwrap_err();
    assert_eq!(error, IngressError::NoSpec);
    assert_eq!(error.text(), "service has no spec");
}

#[test]
fn services_by_the_name_of_their_unit() {
    let mut unlabelled = service(None, None);
    unlabelled.labels = Some(map(&[("app", "spu")]));
    let mut later = service(Some("LoadBalancer"), None);
    later.balancer = vec![host("lb")];
    let broken = service(Some("NodePort"), None);
    let found = build_services_map(&vec![
        listed(service(None, None)),
        listed(unlabelled),
        listed(later),
        listed(broken),
    ]);
    assert_eq!(found.len(), 1);
    assert_eq!(found.get("g-0").unwrap().ingress, vec![host("lb")]);
}

#[test]
fn the_annotated_address_of_a_listed_service() {
    let mut svc = service(Some("LoadBalancer"), None);
    svc.annotations = Some(map(&[(INGRESS_ADDRESS, "::0001")]));
    let found = build_services_map(&vec![ListedService {
        service: svc,
        annotated_ip: Some("::1".to_string()),
    }]);
    assert_eq!(
        found.get("g-0").unwrap().ingress,
        vec![IngressAddr {
            hostname: None,
            ip: Some("::1".to_string())
        }]
    );
    // Without an annotation there is nothing to have been read.
    let found = build_services_map(&vec![ListedService {
        service: service(Some("LoadBalancer"), None),
        annotated_ip: Some("::1".to_string()),
    }]);
    assert!(found.get("g-0").unwrap().ingress.is_empty());
}

#[test]
fn units_are_applied_one_by_one() {
    let mut run = SpuRun::start(&group(sized(2, 100), None), "ns").unwrap();
    let mut svc = service(Some("LoadBalancer"), None);
    svc.balancer = vec![host("lb")];
    match run.discovered(&vec![listed(svc)]) {
        SpuAction::Apply { name, object } => {
            assert_eq!(name, "g-0");
            let spec = object.get("spec").unwrap();
            assert_eq!(spec.get("spuId").unwrap().as_i64(), Some(100));
            match spec.get("publicEndpoint").unwrap().get("ingress").unwrap() {
                Json::Array(list) => {
                    assert_eq!(list.len(), 1);
                    assert_eq!(text(&list[0], &["hostname"]).unwrap(), "lb");
                }
                other => panic!("{other:?}"),
            }
        }
        other => panic!("{other:?}"),
    }
    match run.applied() {
        SpuAction::Apply { name, object } => {
            assert_eq!(name, "g-1");
            let spec = object.get("spec").unwrap();
            assert_eq!(spec.get("spuId").unwrap().as_i64(), Some(101));
        }
        other => panic!("{other:?}"),
    }
    assert!(matches!(run.applied(), SpuAction::List));
    let spus = vec![
        unit("g-1", 101, Some(("g", "uid-g"))),
        unit("g-2", 102, Some(("g", "uid-g"))),
        unit("g-3", 103, Some(("h", "uid-h"))),
        unit("g-4", 104, None),
        unit("h-9", 9, Some(("g", "uid-g"))),
    ];
    match run.listed(&spus) {
        SpuAction::DeleteAll { names } => assert_eq!(names, strings(&["g-2"])),
        other => panic!("{other:?}"),
    }
    assert!(matches!(run.cleaned(), SpuAction::Requeue { seconds: 60 }));
    assert_eq!(run.stage, SpuStage::Done);
}

#[test]
fn a_group_scaled_to_nothing() {
    let mut run = SpuRun::start(&group(sized(0, 0), None), "ns").unwrap();
    assert!(matches!(run.discovered(&vec![]), SpuAction::List));
    match run.listed(&vec![unit("g-0", 0, Some(("g", "uid-g")))]) {
        SpuAction::DeleteAll { names } => assert_eq!(names, strings(&["g-0"])),
        other => panic!("{other:?}"),
    }
}

fn stored(
    key: &str,
    spec: SpuGroupSpec,
    status: SpuGroupStatus,
) -> MetadataStoreObject<SpuGroupSpec, SpuGroupStatus> {
    MetadataStoreObject {
        key: key.to_string(),
        spec,
        status,
        ctx: MetadataContext::new(K8MetaItem {
            namespace: "default".to_string(),
            uid: "uid-g".to_string(),
        }),
    }
}

#[test]
fn test_as_spu_id_private_endpoint_for_k8s() {
    let spu_cases = vec![0, 1, 2];

    for spu in spu_cases {
        let mut item = K8MetaItem::default();
        "default".clone_into(&mut item.namespace);
        let ctx = MetadataContext::new(item);

        let inner = MetadataStoreObject {
            key: spu.to_string(),
            spec: SpuGroupSpec::default(),
            status: SpuGroupStatus::default(),
            ctx,
        };

        let spu_group = SpuGroupObj::new(inner);
        let services = StringMap::new();
        let as_spu = spu_group.as_spu(spu, &services);
        let private_endpoint = as_spu.1.spec.private_endpoint;

        assert_eq!(
            private_endpoint.host,
            format!("fluvio-spg-main-{spu}.fluvio-spg-{spu}.default.svc.cluster.local")
        );
        assert_eq!(private_endpoint.port, 9006);
    }
}

#[test]
fn a_unit_of_a_stored_group() {
    let spec = SpuGroupSpec {
        replicas: 2,
        min_id: 5,
    };
    let group = SpuGroupObj::new(stored("g", spec, SpuGroupStatus::default()));
    assert_eq!(group.svc_name(), "fluvio-spg-g");
    assert_eq!(group.inner().key, "g");
    let mut services = StringMap::new();
    services.insert(
        "g-1".to_string(),
        IngressPort {
            port: 77,
            ingress: vec![host("lb")],
            encryption: EncryptionEnum::SSL,
        },
    );
    let (name, unit) = group.as_spu(1, &services);
    assert_eq!((name.as_str(), unit.key.as_str()), ("g-1", "g-1"));
    assert_eq!(unit.spec.id, 6);
    assert_eq!(unit.spec.spu_type, SpuType::Managed);
    assert_eq!(unit.spec.public_endpoint, *services.get("g-1").unwrap());
    let local = unit.spec.public_endpoint_local.unwrap();
    assert_eq!(local.host, "fluvio-spu-g-1.default.svc.cluster.local");
    assert_eq!(local.port, 9005);
    assert!(unit.spec.rack.is_none());
    assert_eq!(unit.ctx.owner.unwrap().uid, "uid-g");
    let (_, other) = group.as_spu(0, &services);
    assert_eq!(other.spec.public_endpoint.port, 9005);
    assert!(other.spec.public_endpoint.ingress.is_empty());
}

#[test]
fn collisions_with_stored_units() {
    let spec = SpuGroupSpec {
        replicas: 2,
        min_id: 5,
    };
    let spus = vec![
        StoredSpu {
            id: 5,
            owner_uid: Some("uid-g".to_string()),
        },
        StoredSpu {
            id: 7,
            owner_uid: None,
        },
        StoredSpu {
            id: 6,
            owner_uid: Some("uid-h".to_string()),
        },
    ];
    let group = SpuGroupObj::new(stored("g", spec, SpuGroupStatus::default()));
    assert!(!group.is_already_valid());
    assert_eq!(group.is_conflict_with(&spus), Some(6));
    assert_eq!(is_conflict(&spus, "uid-h", 5, 8), Some(5));
    assert_eq!(is_conflict(&spus, "uid-h", 8, 9), None);
    let group = SpuGroupObj::new(stored("g", spec, SpuGroupStatus::reserved()));
    assert!(group.is_already_valid());
    assert_eq!(group.is_conflict_with(&spus), None);
}
