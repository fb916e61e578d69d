use fluvio_control::json::Json;
use fluvio_control::k8::objects::{
    ExternalTrafficPolicy, LoadBalancerType, OwnerReference, ScK8Config, ServiceTemplate, TlsConfig,
    SPU_DEFAULT_NAME, SPU_PRIVATE_PORT, SPU_PUBLIC_PORT,
};
use fluvio_control::k8::service::{EncryptionEnum, IngressAddr, IngressPort};
use fluvio_control::k8::spu_object::build_spu_object;
use fluvio_control::k8::spu_service::{build_spu_service, group_unit_name, service_name_of};
use fluvio_control::k8::statefulset::{build_headless_service, build_statefulset};
use serde_json::{Number, Value};

fn value(json: &Json) -> Value {
    match json {
        Json::Null => Value::Null,
        Json::Bool(b) => Value::Bool(*b),
        Json::Int(n) => Value::Number(Number::from_i128(*n).unwrap()),
        Json::Decimal(s) => Value::Number(s.parse().unwrap()),
        Json::Text(s) => Value::String(s.clone()),
        Json::Array(items) => Value::Array(items.iter().map(value).collect()),
        Json::Object(members) => Value::Object(
            members
                .iter()
                .map(|(key, member)| (key.clone(), value(member)))
                .collect(),
        ),
    }
}

fn parsed(text: &str) -> Value {
    serde_json::from_str(text).unwrap()
}

fn owner_ref(uid: &str) -> OwnerReference {
    OwnerReference {
        api_version: "fluvio.infinyon.com/v1".to_string(),
        kind: "SpuGroup".to_string(),
        name: "main".to_string(),
        uid: uid.to_string(),
        controller: Some(true),
        block_owner_deletion: Some(true),
    }
}

fn test_owner_ref() -> OwnerReference {
    owner_ref("test-uid")
}

fn default_config() -> ScK8Config {
    ScK8Config {
        image: "infinyon/fluvio:latest".to_string(),
        ..Default::default()
    }
}

#[test]
fn test_build_headless_service() {
    let owner = test_owner_ref();
    let svc = value(&build_headless_service("main", "fluvio-system", &owner));
    assert_eq!(svc["metadata"]["name"], "fluvio-spg-main");
    assert_eq!(svc["metadata"]["namespace"], "fluvio-system");
    assert_eq!(svc["spec"]["clusterIP"], "None");
    assert_eq!(svc["spec"]["selector"]["app"], SPU_DEFAULT_NAME);
    assert_eq!(svc["spec"]["selector"]["group"], "main");
    let ports = svc["spec"]["ports"].as_array().unwrap();
    assert_eq!(ports.len(), 2);
    assert_eq!(ports[0]["name"], "public");
    assert_eq!(ports[0]["port"], SPU_PUBLIC_PORT);
    assert_eq!(ports[1]["name"], "private");
    assert_eq!(ports[1]["port"], SPU_PRIVATE_PORT);
}

#[test]
fn test_build_headless_service_owner_ref() {
    let owner = test_owner_ref();
    let svc = value(&build_headless_service("main", "ns", &owner));
    let refs = svc["metadata"]["ownerReferences"].as_array().unwrap();
    assert_eq!(refs.len(), 1);
    assert_eq!(refs[0]["name"], "main");
    assert_eq!(refs[0]["uid"], "test-uid");
}

#[test]
fn test_build_statefulset_basic() {
    let owner = test_owner_ref();
    let sts = value(&build_statefulset("main", "fluvio-system", 2, 0, &default_config(), &None, &None, &owner));
    assert_eq!(sts["metadata"]["name"], "fluvio-spg-main");
    assert_eq!(sts["spec"]["replicas"], 2);
    assert_eq!(sts["spec"]["serviceName"], "fluvio-spg-main");
    assert_eq!(sts["spec"]["selector"]["matchLabels"]["app"], SPU_DEFAULT_NAME);
    assert_eq!(sts["spec"]["selector"]["matchLabels"]["group"], "main");
}

#[test]
fn test_build_statefulset_container_ports() {
    let owner = test_owner_ref();
    let sts = value(&build_statefulset("main", "ns", 1, 0, &default_config(), &None, &None, &owner));
    let ports = sts["spec"]["template"]["spec"]["containers"][0]["ports"].as_array().unwrap();
    assert_eq!(ports.len(), 3);
    let port_names: Vec<&str> = ports.iter().map(|p| p["name"].as_str().unwrap()).collect();
    assert!(port_names.contains(&"public"));
    assert!(port_names.contains(&"private"));
    assert!(port_names.contains(&"health"));
}

#[test]
fn test_build_statefulset_env_vars() {
    let owner = test_owner_ref();
    let sts = value(&build_statefulset("main", "ns", 1, 5, &default_config(), &None, &None, &owner));
    let env = sts["spec"]["template"]["spec"]["containers"][0]["env"].as_array().unwrap();
    let spu_index = env.iter().find(|e| e["name"] == "SPU_INDEX").unwrap();
    assert!(spu_index["valueFrom"]["fieldRef"]["fieldPath"] == "metadata.name");
    let spu_min = env.iter().find(|e| e["name"] == "SPU_MIN").unwrap();
    assert_eq!(spu_min["value"], "5");
}

#[test]
fn test_build_statefulset_args() {
    let owner = test_owner_ref();
    let sts = value(&build_statefulset("main", "fluvio-system", 1, 0, &default_config(), &None, &None, &owner));
    let args = sts["spec"]["template"]["spec"]["containers"][0]["args"].as_array().unwrap();
    let args_str: Vec<&str> = args.iter().map(|a| a.as_str().unwrap()).collect();
    assert!(!args_str.contains(&"/fluvio-run"), "args should not contain binary path");
    assert!(args_str.contains(&"spu"));
    assert!(args_str.contains(&"--sc-addr"));
    assert!(args_str.iter().any(|a| a.contains("fluvio-sc-internal.fluvio-system.svc.cluster.local")));
}

#[test]
fn test_build_statefulset_liveness_probe() {
    let owner = test_owner_ref();
    let sts = value(&build_statefulset("main", "ns", 1, 0, &default_config(), &None, &None, &owner));
    let probe = &sts["spec"]["template"]["spec"]["containers"][0]["livenessProbe"];
    assert_eq!(probe["tcpSocket"]["port"], 9008);
    assert_eq!(probe["initialDelaySeconds"], 5);
    assert_eq!(probe["periodSeconds"], 10);
}

#[test]
fn test_build_statefulset_readiness_probe() {
    let owner = test_owner_ref();
    let sts = value(&build_statefulset("main", "ns", 1, 0, &default_config(), &None, &None, &owner));
    let probe = &sts["spec"]["template"]["spec"]["containers"][0]["readinessProbe"];
    assert_eq!(probe["httpGet"]["path"], "/readyz");
    assert_eq!(probe["httpGet"]["port"], 9008);
}

#[test]
fn test_build_statefulset_pvc() {
    let owner = test_owner_ref();
    let sts = value(&build_statefulset("main", "ns", 1, 0, &default_config(), &None, &None, &owner));
    let claims = sts["spec"]["volumeClaimTemplates"].as_array().unwrap();
    assert_eq!(claims.len(), 1);
    assert_eq!(claims[0]["metadata"]["name"], "data");
    let modes = claims[0]["spec"]["accessModes"].as_array().unwrap();
    assert_eq!(modes[0], "ReadWriteOnce");
}

#[test]
fn test_build_statefulset_owner_ref() {
    let owner = test_owner_ref();
    let sts = value(&build_statefulset("main", "ns", 1, 0, &default_config(), &None, &None, &owner));
    let refs = sts["metadata"]["ownerReferences"].as_array().unwrap();
    assert_eq!(refs[0]["name"], "main");
    assert_eq!(refs[0]["uid"], "test-uid");
}

#[test]
fn test_build_statefulset_termination_grace_period() {
    let owner = test_owner_ref();
    let sts = value(&build_statefulset("main", "ns", 1, 0, &default_config(), &None, &None, &owner));
    assert_eq!(sts["spec"]["template"]["spec"]["terminationGracePeriodSeconds"], 10);
}

#[test]
fn test_build_statefulset_image() {
    let owner = test_owner_ref();
    let config = ScK8Config {
        image: "myregistry/fluvio:v1.0".to_string(),
        ..Default::default()
    };
    let sts = value(&build_statefulset("main", "ns", 1, 0, &config, &None, &None, &owner));
    assert_eq!(sts["spec"]["template"]["spec"]["containers"][0]["image"], "myregistry/fluvio:v1.0");
}

#[test]
fn test_build_statefulset_with_node_selector() {
    let owner = test_owner_ref();
    let mut config = default_config();
    config.spu_pod_config.node_selector.insert("kubernetes.io/arch".to_string(), "arm64".to_string());
    let sts = value(&build_statefulset("main", "ns", 1, 0, &config, &None, &None, &owner));
    let ns = &sts["spec"]["template"]["spec"]["nodeSelector"];
    assert_eq!(ns["kubernetes.io/arch"], "arm64");
}

#[test]
fn test_build_statefulset_has_short_reconcillation_env() {
    let owner = test_owner_ref();
    let sts = value(&build_statefulset("main", "ns", 1, 0, &default_config(), &None, &None, &owner));
    let env = sts["spec"]["template"]["spec"]["containers"][0]["env"].as_array().unwrap();
    let reconcillation = env.iter().find(|e| e["name"] == "FLV_SHORT_RECONCILLATION").unwrap();
    assert_eq!(reconcillation["value"], "1");
}

#[test]
fn test_build_statefulset_with_priority_class() {
    let owner = test_owner_ref();
    let mut config = default_config();
    config.spu_pod_config.priority_class_name = Some("high-priority".to_string());
    let sts = value(&build_statefulset("main", "ns", 1, 0, &config, &None, &None, &owner));
    assert_eq!(sts["spec"]["template"]["spec"]["priorityClassName"], "high-priority");
}

#[test]
fn test_spu_object_has_correct_spec_fields() {
    let endpoint = IngressPort::default();
    let obj = value(&build_spu_object("main-0", "main", 0, 5, &endpoint, "ns", &owner_ref("uid-123")));
    assert_eq!(obj["spec"]["spuId"], 5);
    assert_eq!(obj["spec"]["spuType"], "Managed");
    assert!(obj["spec"]["publicEndpoint"].is_object());
    assert!(obj["spec"]["privateEndpoint"].is_object());
    assert!(obj["spec"]["publicEndpointLocal"].is_object());
}

#[test]
fn test_spu_private_endpoint_fqdn() {
    let endpoint = IngressPort::default();
    let obj = value(&build_spu_object("main-1", "main", 1, 1, &endpoint, "fluvio-system", &owner_ref("uid-123")));
    assert_eq!(
        obj["spec"]["privateEndpoint"]["host"],
        "fluvio-spg-main-1.fluvio-spg-main.fluvio-system.svc.cluster.local"
    );
    assert_eq!(obj["spec"]["privateEndpoint"]["port"], SPU_PRIVATE_PORT);
}

#[test]
fn test_spu_public_endpoint_local_fqdn() {
    let endpoint = IngressPort::default();
    let obj = value(&build_spu_object("main-0", "main", 0, 0, &endpoint, "fluvio-system", &owner_ref("uid-123")));
    assert_eq!(
        obj["spec"]["publicEndpointLocal"]["host"],
        "fluvio-spu-main-0.fluvio-system.svc.cluster.local"
    );
    assert_eq!(obj["spec"]["publicEndpointLocal"]["port"], SPU_PUBLIC_PORT);
}

#[test]
fn test_spu_public_endpoint_from_service_ingress() {
    let endpoint = IngressPort {
        port: 9005,
        ingress: vec![IngressAddr {
            hostname: Some("lb.example.com".to_string()),
            ip: None,
        }],
        ..Default::default()
    };
    let obj = value(&build_spu_object("main-0", "main", 0, 0, &endpoint, "ns", &owner_ref("uid-123")));
    assert_eq!(obj["spec"]["publicEndpoint"]["port"], 9005);
    let ingress = obj["spec"]["publicEndpoint"]["ingress"].as_array().unwrap();
    assert_eq!(ingress[0]["hostname"], "lb.example.com");
}

#[test]
fn test_spu_public_endpoint_empty_when_no_service() {
    let endpoint = IngressPort::default();
    let obj = value(&build_spu_object("main-0", "main", 0, 0, &endpoint, "ns", &owner_ref("uid-123")));
    let ingress = obj["spec"]["publicEndpoint"]["ingress"].as_array().unwrap();
    assert_eq!(obj["spec"]["publicEndpoint"]["port"], SPU_PUBLIC_PORT);
    assert_eq!(ingress[0]["hostname"], "fluvio-spu-main-0.ns.svc.cluster.local");
}

#[test]
fn test_spu_object_sets_plaintext_encryption_fields() {
    let endpoint = IngressPort::default();
    let obj = value(&build_spu_object("main-0", "main", 0, 0, &endpoint, "ns", &owner_ref("uid-123")));
    assert_eq!(obj["spec"]["publicEndpoint"]["encryption"], "PLAINTEXT");
    assert_eq!(obj["spec"]["privateEndpoint"]["encryption"], "PLAINTEXT");
    assert_eq!(obj["spec"]["publicEndpointLocal"]["encryption"], "PLAINTEXT");
}

#[test]
fn test_spu_owner_reference() {
    let endpoint = IngressPort::default();
    let obj = value(&build_spu_object("main-0", "main", 0, 0, &endpoint, "ns", &owner_ref("uid-123")));
    let refs = obj["metadata"]["ownerReferences"].as_array().unwrap();
    assert_eq!(refs[0]["name"], "main");
    assert_eq!(refs[0]["uid"], "uid-123");
    assert_eq!(refs[0]["kind"], "SpuGroup");
}

#[test]
fn test_spu_metadata() {
    let endpoint = IngressPort::default();
    let obj = value(&build_spu_object("main-0", "main", 0, 0, &endpoint, "fluvio-system", &owner_ref("uid-123")));
    assert_eq!(obj["metadata"]["name"], "main-0");
    assert_eq!(obj["metadata"]["namespace"], "fluvio-system");
    assert_eq!(obj["apiVersion"], "fluvio.infinyon.com/v1");
    assert_eq!(obj["kind"], "Spu");
}

#[test]
fn test_spu_id_calculation() {
    let endpoint = IngressPort::default();
    let obj = value(&build_spu_object("test-2", "test", 2, 102, &endpoint, "ns", &owner_ref("uid-123")));
    assert_eq!(obj["spec"]["spuId"], 102);
    assert_eq!(obj["metadata"]["name"], "test-2");
}

#[test]
fn a_stateful_set_in_full() {
    let mut config = default_config();
    config.spu_pod_config.storage_class = Some("fast".to_string());
    config.spu_pod_config.resources = Some(Json::Object(vec![(
        "limits".to_string(),
        Json::Object(vec![("memory".to_string(), Json::text("1Gi"))]),
    )]));
    config.pod_security_context = Some(Json::Object(vec![(
        "runAsUser".to_string(),
        Json::integer(7),
    )]));
    let tls = Some(TlsConfig {
        enable_client_cert: true,
        ca_cert: Some("/ca.crt".to_string()),
        server_cert: Some("/tls.crt".to_string()),
        server_key: None,
        secret_name: None,
    });
    let sts = value(&build_statefulset(
        "g",
        "ns",
        3,
        -1,
        &config,
        &tls,
        &Some("debug".to_string()),
        &test_owner_ref(),
    ));
    let pod = &sts["spec"]["template"]["spec"];
    let container = &pod["containers"][0];
    assert_eq!(
        container["args"],
        parsed(
            r#"["spu", "--sc-addr", "fluvio-sc-internal.ns.svc.cluster.local:9004",
                "--log-base-dir", "/var/lib/fluvio/data", "--log-size", "10Gi", "--tls",
                "--enable-client-cert", "--ca-cert", "/ca.crt", "--server-cert", "/tls.crt",
                "--server-key", "", "--bind-non-tls-public", "0.0.0.0:9007"]"#
        )
    );
    assert_eq!(
        container["volumeMounts"],
        parsed(
            r#"[{"name": "data", "mountPath": "/var/lib/fluvio/data"},
                {"name": "cacert", "mountPath": "/var/certs/ca", "readOnly": true},
                {"name": "tls", "mountPath": "/var/certs/tls", "readOnly": true}]"#
        )
    );
    assert_eq!(
        pod["volumes"],
        parsed(
            r#"[{"name": "cacert", "secret": {"secretName": "fluvio-ca"}},
                {"name": "tls", "secret": {"secretName": "fluvio-tls"}}]"#
        )
    );
    assert_eq!(container["env"][1], parsed(r#"{"name": "SPU_MIN", "value": "-1"}"#));
    assert_eq!(container["env"][3], parsed(r#"{"name": "RUST_LOG", "value": "debug"}"#));
    assert_eq!(container["imagePullPolicy"], "Always");
    assert_eq!(container["resources"]["limits"]["memory"], "1Gi");
    assert_eq!(pod["securityContext"]["runAsUser"], 7);
    assert!(pod.get("nodeSelector").is_none());
    assert!(pod.get("priorityClassName").is_none());
    let claim = &sts["spec"]["volumeClaimTemplates"][0]["spec"];
    assert_eq!(claim["storageClassName"], "fast");
    assert_eq!(claim["resources"]["requests"]["storage"], "10Gi");
}

#[test]
fn a_stateful_set_without_the_rest() {
    let sts = value(&build_statefulset(
        "g",
        "ns",
        3,
        0,
        &default_config(),
        &None,
        &None,
        &test_owner_ref(),
    ));
    let pod = &sts["spec"]["template"]["spec"];
    assert!(pod.get("volumes").is_none());
    assert!(pod["containers"][0].get("resources").is_none());
    assert_eq!(pod["containers"][0]["env"].as_array().unwrap().len(), 3);
    assert!(sts["spec"]["volumeClaimTemplates"][0]["spec"]["storageClassName"].is_null());
}

#[test]
fn an_owner_without_flags() {
    let mut owner = test_owner_ref();
    owner.controller = None;
    owner.block_owner_deletion = None;
    assert_eq!(
        value(&owner.to_json()),
        parsed(
            r#"{"apiVersion": "fluvio.infinyon.com/v1", "kind": "SpuGroup", "name": "main",
                "uid": "test-uid"}"#
        )
    );
    assert_eq!(value(&owner.copy().to_json()), value(&owner.to_json()));
}

#[test]
fn addresses_of_a_unit() {
    let endpoint = IngressPort {
        port: 30000,
        ingress: vec![
            IngressAddr {
                hostname: None,
                ip: Some("10.0.0.1".to_string()),
            },
            IngressAddr {
                hostname: Some("h".to_string()),
                ip: Some("10.0.0.2".to_string()),
            },
            IngressAddr {
                hostname: None,
                ip: None,
            },
        ],
        encryption: EncryptionEnum::SSL,
    };
    let obj = value(&build_spu_object("g-0", "g", 0, 0, &endpoint, "ns", &owner_ref("u")));
    assert_eq!(
        obj["spec"]["publicEndpoint"],
        parsed(
            r#"{"port": 30000, "encryption": "PLAINTEXT",
                "ingress": [{"ip": "10.0.0.1"}, {"hostname": "h", "ip": "10.0.0.2"}, {}]}"#
        )
    );
}

#[test]
fn the_service_of_a_unit() {
    let mut config = default_config();
    config.lb_service_annotations.insert(
        "dns".to_string(),
        "{spu_name}-{replica}-{replica}.example.com".to_string(),
    );
    config.service = Some(ServiceTemplate {
        service_type: Some(LoadBalancerType::NodePort),
        external_traffic_policy: Some(ExternalTrafficPolicy::Local),
    });
    config.spu_pod_config.base_node_port = Some(30000);
    let spu_name = group_unit_name("g", 2);
    assert_eq!(spu_name, "g-2");
    let svc = build_spu_service(2, &spu_name, "g", "uid", &config, "ns");
    assert_eq!(svc.name, Some(service_name_of("g-2")));
    assert_eq!(svc.name.as_deref(), Some("fluvio-spu-g-2"));
    assert_eq!(svc.namespace.as_deref(), Some("ns"));
    assert_eq!(
        svc.labels.unwrap().get("fluvio.io/spu-name"),
        Some(&"g-2".to_string())
    );
    assert_eq!(
        svc.annotations.unwrap().get("dns"),
        Some(&"g-2-2-2.example.com".to_string())
    );
    assert_eq!(svc.owners.len(), 1);
    assert_eq!(svc.owners[0].uid, "uid");
    let spec = svc.spec.unwrap();
    assert_eq!(
        spec.selector
            .unwrap()
            .get("statefulset.kubernetes.io/pod-name"),
        Some(&"fluvio-spg-g-2".to_string())
    );
    assert_eq!(spec.service_type.as_deref(), Some("NodePort"));
    assert_eq!(spec.external_traffic_policy.as_deref(), Some("Local"));
    let ports = spec.ports.unwrap();
    assert_eq!(ports[0].port, 9005);
    assert_eq!(ports[0].target_port, Some(9005));
    assert_eq!(ports[0].node_port, Some(30002));
}

#[test]
fn a_service_without_a_template() {
    let mut config = default_config();
    config.spu_pod_config.base_node_port = Some(65535);
    let svc = build_spu_service(9, "g-9", "g", "uid", &config, "ns");
    assert!(svc.annotations.is_none());
    let spec = svc.spec.unwrap();
    assert!(spec.service_type.is_none() && spec.external_traffic_policy.is_none());
    assert_eq!(spec.ports.unwrap()[0].node_port, None);
}
