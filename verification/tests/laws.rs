use fluvio_control::generate::expand::build_liquid_globals;
use fluvio_control::generate::variables::{parse_variables, variables_of_project};
use fluvio_control::json::Json;
use fluvio_control::k8::group::KubeObject;
use fluvio_control::k8::ingress::get_ingress_from_k8s_service;
use fluvio_control::k8::objects::{
    LoadBalancerType, OwnerReference, ScK8Config, ServiceTemplate, TlsConfig,
};
use fluvio_control::k8::set_controller::{SetAction, SetRun};
use fluvio_control::k8::spu_object::{private_host_of, public_host_of};
use fluvio_control::k8::spu_service::{build_spu_service, group_unit_name};
use fluvio_control::k8::statefulset::{build_statefulset, group_set_name};
use fluvio_control::smdk::{CargoSmDependSource, SmartModuleType, SmdkTemplateValue};
use liquid_core::ValueView;

#[test]
fn units_have_different_names() {
    assert_ne!(group_unit_name("g", 1), group_unit_name("g", 11));
    assert_ne!(group_unit_name("g-1", 1), group_unit_name("g-1", 10));
}

#[test]
fn a_service_selects_the_pod_of_its_unit() {
    let unit = group_unit_name("g", 12);
    let svc = build_spu_service(12, &unit, "g", "u", &ScK8Config::default(), "ns");
    let selector = svc.spec.unwrap().selector.unwrap();
    assert_eq!(
        selector.get("statefulset.kubernetes.io/pod-name").unwrap(),
        &format!("{}-12", group_set_name("g"))
    );
}

#[test]
fn a_unit_of_the_main_group_is_reached_at_its_pod() {
    let set = group_set_name("main");
    assert_eq!(
        private_host_of("main", 3, "ns"),
        format!("{set}-3.{set}.ns.svc.cluster.local")
    );
    let set = group_set_name("other");
    assert_ne!(
        private_host_of("other", 3, "ns"),
        format!("{set}-3.{set}.ns.svc.cluster.local")
    );
}

#[test]
fn a_service_of_the_cluster_is_reached_at_the_host_of_its_unit() {
    let svc = build_spu_service(0, "g-0", "g", "u", &ScK8Config::default(), "ns");
    let found = get_ingress_from_k8s_service(&svc, &None).unwrap();
    assert_eq!(found.port, 9005);
    assert_eq!(found.ingress.len(), 1);
    assert_eq!(found.ingress[0].hostname, Some(public_host_of("g-0", "ns")));
}

#[test]
fn a_service_with_a_node_port_is_reached_there() {
    let mut config = ScK8Config::default();
    config.service = Some(ServiceTemplate {
        service_type: Some(LoadBalancerType::NodePort),
        external_traffic_policy: None,
    });
    config.spu_pod_config.base_node_port = Some(65000);
    let svc = build_spu_service(535, "g-535", "g", "u", &config, "ns");
    assert_eq!(get_ingress_from_k8s_service(&svc, &None).unwrap().port, 65535);
}

#[test]
fn a_group_is_not_in_its_own_way() {
    let member = |name: &str, number: i64| (name.to_string(), Json::integer(number));
    let spg = KubeObject {
        name: "g".to_string(),
        namespace: None,
        uid: Some("u".to_string()),
        owners: vec![],
        data: Json::Object(vec![(
            "spec".to_string(),
            Json::Object(vec![member("replicas", 2), member("minId", 5)]),
        )]),
    };
    let unit = |id: i64| KubeObject {
        name: format!("g-{id}"),
        namespace: None,
        uid: None,
        owners: vec![OwnerReference::group("g", "u")],
        data: Json::Object(vec![(
            "spec".to_string(),
            Json::Object(vec![member("spuId", id)]),
        )]),
    };
    let mut run = SetRun::start(&spg, "ns").unwrap();
    match run.listed(&vec![unit(5), unit(6)]) {
        SetAction::PatchStatus { patch } => assert_eq!(
            patch.get("status").unwrap().get("resolution").unwrap().as_str(),
            Some(&"Reserved".to_string())
        ),
        other => panic!("{other:?}"),
    }
}

fn names(list: &Json) -> Vec<String> {
    match list {
        Json::Array(items) => items
            .iter()
            .map(|item| item.get("name").unwrap().as_str().unwrap().clone())
            .collect(),
        other => panic!("{other:?}"),
    }
}

#[test]
fn all_that_is_mounted_is_there() {
    let tls = |enable_client_cert| TlsConfig {
        enable_client_cert,
        ca_cert: None,
        server_cert: None,
        server_key: None,
        secret_name: None,
    };
    for tls in [None, Some(tls(false)), Some(tls(true))] {
        let owner = OwnerReference::group("g", "u");
        let set = build_statefulset("g", "ns", 1, 0, &ScK8Config::default(), &tls, &None, &owner);
        let spec = set.get("spec").unwrap();
        let pod = spec.get("template").unwrap().get("spec").unwrap();
        let mut there = pod.get("volumes").map(names).unwrap_or_default();
        there.push("data".to_string());
        let mounted = match pod.get("containers").unwrap() {
            Json::Array(containers) => names(containers[0].get("volumeMounts").unwrap()),
            other => panic!("{other:?}"),
        };
        assert!(mounted.iter().all(|name| there.contains(name)));
    }
}

#[test]
fn chosen_values_reach_the_template() {
    let url = "https://example.com/a=b".to_string();
    let define = vec![
        SmdkTemplateValue::SmType(SmartModuleType::FilterMap).text(),
        SmdkTemplateValue::SmCargoDependency(CargoSmDependSource::Git(url)).text(),
    ];
    let vars = parse_variables(&define);
    assert_eq!(vars.get("smartmodule_type").unwrap(), "filter-map");
    assert_eq!(
        vars.get("fluvio-smartmodule-cargo-dependency").unwrap(),
        "{ git = \"https://example.com/a=b\" }"
    );
}

#[test]
fn the_name_of_the_project_reaches_the_template() {
    let define = vec!["project-group=x".to_string()];
    let globals = build_liquid_globals(&variables_of_project("my-app", &define));
    assert_eq!(globals.get("project_name").unwrap().to_kstr().as_str(), "my-app");
    assert_eq!(globals.get("crate_name").unwrap().to_kstr().as_str(), "my_app");
    assert_eq!(globals.get("project_group").unwrap().to_kstr().as_str(), "x");
}
