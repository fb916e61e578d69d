use fluvio_control::cluster::{FluvioClusterConfig, TlsPolicy};
use fluvio_control::k8::objects::{
    PRODUCT_NAME, SC_PRIVATE_PORT, SPU_DEFAULT_NAME, SPU_PRIVATE_PORT, SPU_PUBLIC_PORT,
    TLS_SERVER_SECRET_NAME,
};
use fluvio_control::k8::service::IngressAddr;
use fluvio_control::k8_types::{
    ExecCredentialSpec, NodeSpec, PersistentVolumeClaim, ResourceRequirements, ServiceAccountSpec,
    StatefulSetSpec, TemplateSpec, VolumeAccessMode, VolumeRequest,
};
use fluvio_control::namespace_gc::{DeleteReply, GcAction, GcRun, GcStage};
use fluvio_control::profile_sync::{
    discover_fluvio_addr, required_addr, sc_namespace, set_k8_context, Config, IntOrString, K8Opt,
    ScService,
};
use fluvio_control::string_map::StringMap;
use fluvio_control::text_order::sort_texts;

fn strings(list: &[&str]) -> Vec<String> {
    list.iter().map(|s| s.to_string()).collect()
}

#[test]
fn a_namespace_that_stays() {
    let (run, action) = GcRun::start("ns", false, false);
    assert_eq!(run.stage, GcStage::Done);
    assert!(matches!(action, GcAction::AwaitChange));
}

#[test]
fn topics_go_with_their_namespace() {
    let (mut run, action) = GcRun::start("ns", true, false);
    match action {
        GcAction::List { selector } => assert_eq!(selector, "fluvio.io/source-namespace=ns"),
        other => panic!("{other:?}"),
    }
    match run.listed(strings(&["a", "b"])) {
        GcAction::Delete { name } => assert_eq!(name, "a"),
        other => panic!("{other:?}"),
    }
    match run.deleted(DeleteReply::Refused(404)) {
        GcAction::Delete { name } => assert_eq!(name, "b"),
        other => panic!("{other:?}"),
    }
    assert!(matches!(run.deleted(DeleteReply::Deleted), GcAction::AwaitChange));
    assert_eq!(run.stage, GcStage::Done);
}

#[test]
fn a_dry_run_deletes_no_topic() {
    let (mut run, _) = GcRun::start("ns", true, true);
    assert!(matches!(run.listed(strings(&["a"])), GcAction::AwaitChange));
    let (mut run, _) = GcRun::start("ns", true, false);
    assert!(matches!(run.listed(vec![]), GcAction::AwaitChange));
}

#[test]
fn other_failures_end_the_collection() {
    for reply in [DeleteReply::Refused(403), DeleteReply::Failed] {
        let (mut run, _) = GcRun::start("ns", true, false);
        run.listed(strings(&["a", "b"]));
        assert!(matches!(run.deleted(reply), GcAction::Fail));
        assert_eq!(run.stage, GcStage::Done);
    }
}

fn no_config() -> Config {
    Config {
        current_profile: None,
        clusters: StringMap::new(),
        profiles: StringMap::new(),
    }
}

fn opt(name: Option<&str>) -> K8Opt {
    K8Opt {
        namespace: None,
        name: name.map(|s| s.to_string()),
        tls: TlsPolicy::Anonymous,
    }
}

#[test]
fn a_profile_follows_the_cluster() {
    let mut config = no_config();
    config
        .clusters
        .insert("other".to_string(), FluvioClusterConfig::new("o".to_string()));
    let profile = set_k8_context(&mut config, opt(Some("mine")), &None, "a:9003".to_string()).unwrap();
    assert_eq!(profile.cluster, "mine");
    assert_eq!(config.current_profile.as_deref(), Some("mine"));
    assert_eq!(config.profiles.get("mine").unwrap().cluster, "mine");
    let cluster = config.clusters.get("mine").unwrap();
    assert_eq!(cluster.endpoint, "a:9003");
    assert_eq!(cluster.tls, TlsPolicy::Anonymous);
    assert_eq!(config.clusters.get("other").unwrap().endpoint, "o");
}

#[test]
fn a_known_cluster_keeps_its_settings() {
    let mut config = no_config();
    let mut cluster = FluvioClusterConfig::new("o".to_string());
    cluster.spu_retry_count = 3;
    config.clusters.insert("ctx".to_string(), cluster);
    let context = Some("ctx".to_string());
    set_k8_context(&mut config, opt(None), &context, "a:1".to_string()).unwrap();
    let cluster = config.clusters.get("ctx").unwrap();
    assert_eq!((cluster.endpoint.as_str(), cluster.spu_retry_count), ("a:1", 3));
    assert_eq!(cluster.tls, TlsPolicy::Anonymous);
}

#[test]
fn a_profile_needs_a_name() {
    let mut config = no_config();
    let error = set_k8_context(&mut config, opt(None), &None, "a".to_string()).unwrap_err();
    assert_eq!(error, "no context found");
    assert!(config.current_profile.is_none() && config.clusters.is_empty());
}

fn sc_service(hostname: Option<&str>, ip: Option<&str>, port: Option<IntOrString>) -> Option<ScService> {
    Some(ScService {
        ingress: vec![IngressAddr {
            hostname: hostname.map(|s| s.to_string()),
            ip: ip.map(|s| s.to_string()),
        }],
        target_ports: vec![port],
    })
}

#[test]
fn the_address_of_the_controller() {
    let found = |svc| discover_fluvio_addr(&svc);
    assert_eq!(
        found(sc_service(Some("h"), Some("1.2.3.4"), Some(IntOrString::Int(9003)))).as_deref(),
        Some("h:9003")
    );
    assert_eq!(
        found(sc_service(None, Some("1.2.3.4"), Some(IntOrString::Text("sc".to_string())))).as_deref(),
        Some("1.2.3.4:sc")
    );
    assert_eq!(found(sc_service(None, None, Some(IntOrString::Int(1)))), None);
    assert_eq!(found(sc_service(Some("h"), None, None)), None);
    assert_eq!(found(None), None);
    let mut bare = sc_service(Some("h"), None, Some(IntOrString::Int(1)));
    bare.as_mut().unwrap().ingress.clear();
    assert_eq!(found(bare), None);
    assert_eq!(required_addr(Some("a".to_string())), Ok("a".to_string()));
    assert_eq!(required_addr(None), Err("fluvio service is not deployed"));
    assert_eq!(sc_namespace(&None), "default");
    assert_eq!(sc_namespace(&Some("ns".to_string())), "ns");
}

#[test]
fn ports_and_names_of_the_product() {
    assert_eq!(SPU_PUBLIC_PORT, fluvio_types::defaults::SPU_PUBLIC_PORT);
    assert_eq!(SPU_PRIVATE_PORT, fluvio_types::defaults::SPU_PRIVATE_PORT);
    assert_eq!(SC_PRIVATE_PORT, fluvio_types::defaults::SC_PRIVATE_PORT);
    assert_eq!(PRODUCT_NAME, fluvio_types::defaults::PRODUCT_NAME);
    assert_eq!(SPU_DEFAULT_NAME, fluvio_types::defaults::SPU_DEFAULT_NAME);
    assert_eq!(
        TLS_SERVER_SECRET_NAME,
        fluvio_types::defaults::TLS_SERVER_SECRET_NAME
    );
}

#[test]
fn kinds_of_the_cluster() {
    let set = StatefulSetSpec::metadata();
    assert_eq!((set.group, set.version), ("apps", "v1"));
    assert_eq!(
        (set.names.kind, set.names.plural, set.names.singular),
        ("StatefulSet", "statefulsets", "statefulset")
    );
    assert_eq!(NodeSpec::metadata().names.kind, "Node");
    assert_eq!(ServiceAccountSpec::metadata().names.plural, "serviceaccounts");
    assert_eq!(ExecCredentialSpec::metadata().group, "client.authentication.k8s.io");
}

#[test]
fn a_set_takes_over_the_volumes_of_another() {
    let mut set = StatefulSetSpec::default();
    set.replicas = Some(1);
    let mut other = StatefulSetSpec::default();
    other.replicas = Some(5);
    other.volume_claim_templates.push(TemplateSpec {
        name: Some("data".to_string()),
        labels: StringMap::new(),
        spec: PersistentVolumeClaim {
            access_modes: vec![VolumeAccessMode::ReadWriteOnce],
            storage_class_name: None,
            resources: ResourceRequirements {
                requests: VolumeRequest {
                    storage: "1Gi".to_string(),
                },
            },
        },
    });
    set.make_same(&other);
    assert_eq!(set.replicas, Some(1));
    assert_eq!(set.volume_claim_templates.len(), 1);
    assert_eq!(set.volume_claim_templates[0].name.as_deref(), Some("data"));
    assert_eq!(
        set.volume_claim_templates[0].spec.resources.requests.storage,
        "1Gi"
    );
}

#[test]
fn texts_are_sorted_by_their_bytes() {
    let mut list = strings(&["b", "\u{10000}", "\u{ffff}", "a", "", "ab"]);
    let sorted = sort_texts(list.clone());
    list.sort();
    assert_eq!(sorted, list);
}
