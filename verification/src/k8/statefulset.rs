//! The stateful set and the headless service of a group of units.
use vstd::prelude::*;

use crate::decimal::{decimal, decimal_signed, digits, numeral};
use crate::json::{
    lemma_find_member, no_items, no_members, opt_tree, string_members, text_array, text_or_null, Items, Json, JsonTree,
    Members,
};
use crate::k8::objects::{
    OwnerReference, ScK8Config, SpuPodConfig, TlsConfig, PRODUCT_NAME, SC_PRIVATE_PORT,
    SPU_DEFAULT_NAME, SPU_PRIVATE_PORT, SPU_PUBLIC_PORT, TLS_SERVER_SECRET_NAME,
};
use crate::text::{opt_text, texts};

verus! {

/// The size of the volume of each unit.
pub const STORAGE_SIZE: &'static str = "10Gi";

/// The port of the health checks.
pub const HEALTH_PORT: u16 = 9008;

/// The name of the stateful set, and of the headless service, of a group.
pub open spec fn set_name(group: Seq<char>) -> Seq<char> {
    "fluvio-spg-"@ + group
}

pub fn group_set_name(group: &str) -> (r: String)
    ensures
        r@ == set_name(group@),
{
    "fluvio-spg-".to_owned().concat(group)
}

/// The labels that mark the pods of a group.
pub open spec fn pod_labels(group: Seq<char>) -> JsonTree {
    JsonTree::Object(
        no_members().push(("app"@, JsonTree::Text(SPU_DEFAULT_NAME@))).push(
            ("group"@, JsonTree::Text(group)),
        ),
    )
}

fn build_pod_labels(group: &str) -> (j: Json)
    ensures
        j@ == pod_labels(group@),
{
    Members::new().with("app", Json::text(SPU_DEFAULT_NAME)).with(
        "group",
        Json::text(group),
    ).into_object()
}

/// The name, namespace and owner of an object.
pub open spec fn owned_metadata(
    name: Seq<char>,
    namespace: Seq<char>,
    owner: OwnerReference,
) -> JsonTree {
    JsonTree::Object(
        no_members().push(("name"@, JsonTree::Text(name))).push(
            ("namespace"@, JsonTree::Text(namespace)),
        ).push(("ownerReferences"@, JsonTree::Array(no_items().push(owner.document())))),
    )
}

pub fn build_owned_metadata(name: &str, namespace: &str, owner: &OwnerReference) -> (j: Json)
    ensures
        j@ == owned_metadata(name@, namespace@, *owner),
{
    Members::new().with("name", Json::text(name)).with("namespace", Json::text(namespace)).with(
        "ownerReferences",
        Items::new().with(owner.to_json()).into_array(),
    ).into_object()
}

/// A port with a name, its number under `key`.
pub open spec fn named_port(name: Seq<char>, key: Seq<char>, port: int) -> JsonTree {
    JsonTree::Object(
        no_members().push(("name"@, JsonTree::Text(name))).push((key, JsonTree::Int(port))),
    )
}

fn build_named_port(name: &str, key: &str, port: u16) -> (j: Json)
    ensures
        j@ == named_port(name@, key@, port as int),
{
    Members::new().with("name", Json::text(name)).with(
        key,
        Json::integer(port as i64),
    ).into_object()
}

/// The headless service of a group.
pub open spec fn headless_service(
    group: Seq<char>,
    namespace: Seq<char>,
    owner: OwnerReference,
) -> JsonTree {
    JsonTree::Object(
        no_members().push(("apiVersion"@, JsonTree::Text("v1"@))).push(
            ("kind"@, JsonTree::Text("Service"@)),
        ).push(("metadata"@, owned_metadata(set_name(group), namespace, owner))).push(
            (
                "spec"@,
                JsonTree::Object(
                    no_members().push(("clusterIP"@, JsonTree::Text("None"@))).push(
                        ("selector"@, pod_labels(group)),
                    ).push(
                        (
                            "ports"@,
                            JsonTree::Array(
                                no_items().push(
                                    named_port("public"@, "port"@, SPU_PUBLIC_PORT as int),
                                ).push(named_port("private"@, "port"@, SPU_PRIVATE_PORT as int)),
                            ),
                        ),
                    ),
                ),
            ),
        ),
    )
}

pub fn build_headless_service(
    group_name: &str,
    namespace: &str,
    owner_ref: &OwnerReference,
) -> (j: Json)
    ensures
        j@ == headless_service(group_name@, namespace@, *owner_ref),
{
    let name = group_set_name(group_name);
    let ports = Items::new().with(build_named_port("public", "port", SPU_PUBLIC_PORT)).with(
        build_named_port("private", "port", SPU_PRIVATE_PORT),
    ).into_array();
    let spec = Members::new().with("clusterIP", Json::text("None")).with(
        "selector",
        build_pod_labels(group_name),
    ).with("ports", ports).into_object();
    Members::new().with("apiVersion", Json::text("v1")).with("kind", Json::text("Service")).with(
        "metadata",
        build_owned_metadata(name.as_str(), namespace, owner_ref),
    ).with("spec", spec).into_object()
}

/// An environment variable with a fixed value.
pub open spec fn env_value(name: Seq<char>, value: Seq<char>) -> JsonTree {
    JsonTree::Object(
        no_members().push(("name"@, JsonTree::Text(name))).push(("value"@, JsonTree::Text(value))),
    )
}

fn build_env_value(name: &str, value: &str) -> (j: Json)
    ensures
        j@ == env_value(name@, value@),
{
    Members::new().with("name", Json::text(name)).with("value", Json::text(value)).into_object()
}

/// The environment of the container: which pod it is, the first identifier of the group, and the
/// log filter of this process where it has one.
pub open spec fn container_env(min_id: int, rust_log: Option<Seq<char>>) -> Seq<JsonTree> {
    let fixed = no_items().push(
        JsonTree::Object(
            no_members().push(("name"@, JsonTree::Text("SPU_INDEX"@))).push(
                (
                    "valueFrom"@,
                    JsonTree::Object(
                        no_members().push(
                            (
                                "fieldRef"@,
                                JsonTree::Object(
                                    no_members().push(
                                        ("fieldPath"@, JsonTree::Text("metadata.name"@)),
                                    ),
                                ),
                            ),
                        ),
                    ),
                ),
            ),
        ),
    ).push(env_value("SPU_MIN"@, numeral(min_id))).push(
        env_value("FLV_SHORT_RECONCILLATION"@, "1"@),
    );
    match rust_log {
        Some(filter) => fixed.push(env_value("RUST_LOG"@, filter)),
        None => fixed,
    }
}

fn build_env(min_id: i32, rust_log: &Option<String>) -> (j: Json)
    ensures
        j@ == JsonTree::Array(container_env(min_id as int, opt_text(*rust_log))),
{
    let field = Members::new().with("fieldPath", Json::text("metadata.name")).into_object();
    let from = Members::new().with("fieldRef", field).into_object();
    let index = Members::new().with("name", Json::text("SPU_INDEX")).with(
        "valueFrom",
        from,
    ).into_object();
    let min = decimal_signed(min_id as i64);
    let mut env = Items::new().with(index).with(build_env_value("SPU_MIN", min.as_str())).with(
        build_env_value("FLV_SHORT_RECONCILLATION", "1"),
    );
    if let Some(filter) = rust_log {
        env = env.with(build_env_value("RUST_LOG", filter.as_str()));
    }
    env.into_array()
}

/// The directory in which a unit keeps its data.
pub open spec fn data_dir() -> Seq<char> {
    "/var/lib/"@ + PRODUCT_NAME@ + "/data"@
}

fn data_path() -> (r: String)
    ensures
        r@ == data_dir(),
{
    "/var/lib/".to_owned().concat(PRODUCT_NAME).concat("/data")
}

/// A text, or the empty one where there is none.
pub open spec fn text_or_empty(s: Option<String>) -> Seq<char> {
    match s {
        Some(t) => t@,
        None => Seq::empty(),
    }
}

fn or_empty(s: &Option<String>) -> (r: String)
    ensures
        r@ == text_or_empty(*s),
{
    match s {
        Some(t) => t.clone(),
        None => {
            let r = String::new();
            assert(r@ =~= Seq::empty());
            r
        },
    }
}

/// The arguments with which a unit is started in every case.
pub open spec fn plain_args(namespace: Seq<char>) -> Seq<Seq<char>> {
    Seq::<Seq<char>>::empty().push("spu"@).push("--sc-addr"@).push(
        "fluvio-sc-internal."@ + namespace + ".svc.cluster.local:"@ + digits(SC_PRIVATE_PORT as nat),
    ).push("--log-base-dir"@).push(data_dir()).push("--log-size"@).push(STORAGE_SIZE@)
}

/// The arguments that secure connections.
pub open spec fn tls_args(tls: TlsConfig) -> Seq<Seq<char>> {
    let first = Seq::<Seq<char>>::empty().push("--tls"@);
    let client = if tls.enable_client_cert {
        first.push("--enable-client-cert"@).push("--ca-cert"@).push(text_or_empty(tls.ca_cert))
    } else {
        first
    };
    client.push("--server-cert"@).push(text_or_empty(tls.server_cert)).push("--server-key"@).push(
        text_or_empty(tls.server_key),
    ).push("--bind-non-tls-public"@).push("0.0.0.0:9007"@)
}

/// The arguments with which a unit is started.
pub open spec fn container_args(namespace: Seq<char>, tls: Option<TlsConfig>) -> Seq<Seq<char>> {
    match tls {
        Some(t) => plain_args(namespace) + tls_args(t),
        None => plain_args(namespace),
    }
}

fn build_args(namespace: &str, tls: &Option<TlsConfig>) -> (args: Vec<String>)
    ensures
        texts(args@) == container_args(namespace@, *tls),
{
    let mut args: Vec<String> = Vec::new();
    args.push("spu".to_owned());
    args.push("--sc-addr".to_owned());
    args.push(
        "fluvio-sc-internal.".to_owned().concat(namespace).concat(".svc.cluster.local:").concat(
            decimal(SC_PRIVATE_PORT as u64).as_str(),
        ),
    );
    args.push("--log-base-dir".to_owned());
    args.push(data_path());
    args.push("--log-size".to_owned());
    args.push(STORAGE_SIZE.to_owned());
    assert(texts(args@) =~= plain_args(namespace@));
    if let Some(t) = tls {
        let ghost before = texts(args@);
        args.push("--tls".to_owned());
        if t.enable_client_cert {
            args.push("--enable-client-cert".to_owned());
            args.push("--ca-cert".to_owned());
            args.push(or_empty(&t.ca_cert));
        }
        args.push("--server-cert".to_owned());
        args.push(or_empty(&t.server_cert));
        args.push("--server-key".to_owned());
        args.push(or_empty(&t.server_key));
        args.push("--bind-non-tls-public".to_owned());
        args.push("0.0.0.0:9007".to_owned());
        assert(texts(args@) =~= before + tls_args(*t));
    }
    args
}

/// A volume mounted for reading only.
pub open spec fn read_only_mount(name: Seq<char>, path: Seq<char>) -> JsonTree {
    JsonTree::Object(
        no_members().push(("name"@, JsonTree::Text(name))).push(
            ("mountPath"@, JsonTree::Text(path)),
        ).push(("readOnly"@, JsonTree::Bool(true))),
    )
}

fn build_read_only_mount(name: &str, path: &str) -> (j: Json)
    ensures
        j@ == read_only_mount(name@, path@),
{
    Members::new().with("name", Json::text(name)).with("mountPath", Json::text(path)).with(
        "readOnly",
        Json::boolean(true),
    ).into_object()
}

/// The volumes mounted into the container.
pub open spec fn volume_mounts(tls: Option<TlsConfig>) -> Seq<JsonTree> {
    let data = no_items().push(
        JsonTree::Object(
            no_members().push(("name"@, JsonTree::Text("data"@))).push(
                ("mountPath"@, JsonTree::Text(data_dir())),
            ),
        ),
    );
    match tls {
        Some(t) => (if t.enable_client_cert {
            data.push(read_only_mount("cacert"@, "/var/certs/ca"@))
        } else {
            data
        }).push(read_only_mount("tls"@, "/var/certs/tls"@)),
        None => data,
    }
}

fn build_volume_mounts(tls: &Option<TlsConfig>) -> (j: Json)
    ensures
        j@ == JsonTree::Array(volume_mounts(*tls)),
{
    let path = data_path();
    let data = Members::new().with("name", Json::text("data")).with(
        "mountPath",
        Json::text(path.as_str()),
    ).into_object();
    let mut mounts = Items::new().with(data);
    if let Some(t) = tls {
        if t.enable_client_cert {
            mounts = mounts.with(build_read_only_mount("cacert", "/var/certs/ca"));
        }
        mounts = mounts.with(build_read_only_mount("tls", "/var/certs/tls"));
    }
    mounts.into_array()
}

/// A volume filled from a secret.
pub open spec fn secret_volume(name: Seq<char>, secret: Seq<char>) -> JsonTree {
    JsonTree::Object(
        no_members().push(("name"@, JsonTree::Text(name))).push(
            (
                "secret"@,
                JsonTree::Object(no_members().push(("secretName"@, JsonTree::Text(secret)))),
            ),
        ),
    )
}

fn build_secret_volume(name: &str, secret: &str) -> (j: Json)
    ensures
        j@ == secret_volume(name@, secret@),
{
    let inner = Members::new().with("secretName", Json::text(secret)).into_object();
    Members::new().with("name", Json::text(name)).with("secret", inner).into_object()
}

/// The secret that holds the certificate of the server.
pub open spec fn server_secret(tls: TlsConfig) -> Seq<char> {
    match tls.secret_name {
        Some(s) => s@,
        None => TLS_SERVER_SECRET_NAME@,
    }
}

/// The volumes of a pod, besides its data.
pub open spec fn pod_volumes(tls: Option<TlsConfig>) -> Seq<JsonTree> {
    match tls {
        Some(t) => (if t.enable_client_cert {
            no_items().push(secret_volume("cacert"@, "fluvio-ca"@))
        } else {
            no_items()
        }).push(secret_volume("tls"@, server_secret(t))),
        None => no_items(),
    }
}

fn build_volumes(tls: &TlsConfig) -> (j: Json)
    ensures
        j@ == JsonTree::Array(pod_volumes(Some(*tls))),
{
    let mut volumes = Items::new();
    if tls.enable_client_cert {
        volumes = volumes.with(build_secret_volume("cacert", "fluvio-ca"));
    }
    let secret = match &tls.secret_name {
        Some(s) => s.clone(),
        None => TLS_SERVER_SECRET_NAME.to_owned(),
    };
    volumes.with(build_secret_volume("tls", secret.as_str())).into_array()
}

/// The check that the container is alive.
pub open spec fn liveness_probe() -> JsonTree {
    JsonTree::Object(
        no_members().push(
            (
                "tcpSocket"@,
                JsonTree::Object(no_members().push(("port"@, JsonTree::Int(HEALTH_PORT as int)))),
            ),
        ).push(("initialDelaySeconds"@, JsonTree::Int(5))).push(
            ("periodSeconds"@, JsonTree::Int(10)),
        ),
    )
}

fn build_liveness_probe() -> (j: Json)
    ensures
        j@ == liveness_probe(),
{
    let socket = Members::new().with("port", Json::integer(HEALTH_PORT as i64)).into_object();
    Members::new().with("tcpSocket", socket).with("initialDelaySeconds", Json::integer(5)).with(
        "periodSeconds",
        Json::integer(10),
    ).into_object()
}

/// The check that the container is ready.
pub open spec fn readiness_probe() -> JsonTree {
    JsonTree::Object(
        no_members().push(
            (
                "httpGet"@,
                JsonTree::Object(
                    no_members().push(("path"@, JsonTree::Text("/readyz"@))).push(
                        ("port"@, JsonTree::Int(HEALTH_PORT as int)),
                    ),
                ),
            ),
        ).push(("initialDelaySeconds"@, JsonTree::Int(5))).push(
            ("periodSeconds"@, JsonTree::Int(5)),
        ),
    )
}

fn build_readiness_probe() -> (j: Json)
    ensures
        j@ == readiness_probe(),
{
    let get = Members::new().with("path", Json::text("/readyz")).with(
        "port",
        Json::integer(HEALTH_PORT as i64),
    ).into_object();
    Members::new().with("httpGet", get).with("initialDelaySeconds", Json::integer(5)).with(
        "periodSeconds",
        Json::integer(5),
    ).into_object()
}

/// The members with `value` under `key` behind them, where there is one.
pub open spec fn with_document(
    members: Seq<(Seq<char>, JsonTree)>,
    key: Seq<char>,
    value: Option<JsonTree>,
) -> Seq<(Seq<char>, JsonTree)> {
    match value {
        Some(v) => members.push((key, v)),
        None => members,
    }
}

fn add_document(members: Members, key: &str, value: &Option<Json>) -> (m: Members)
    ensures
        m@ == with_document(members@, key@, opt_tree(*value)),
{
    match value {
        Some(v) => members.with(key, v.clone()),
        None => members,
    }
}

/// The container of a unit.
pub open spec fn container(
    namespace: Seq<char>,
    min_id: int,
    config: ScK8Config,
    tls: Option<TlsConfig>,
    rust_log: Option<Seq<char>>,
) -> JsonTree {
    JsonTree::Object(
        with_document(
            no_members().push(("name"@, JsonTree::Text(SPU_DEFAULT_NAME@))).push(
                ("image"@, JsonTree::Text(config.image@)),
            ).push(("imagePullPolicy"@, JsonTree::Text("Always"@))).push(
                (
                    "ports"@,
                    JsonTree::Array(
                        no_items().push(
                            named_port("public"@, "containerPort"@, SPU_PUBLIC_PORT as int),
                        ).push(
                            named_port("private"@, "containerPort"@, SPU_PRIVATE_PORT as int),
                        ).push(named_port("health"@, "containerPort"@, HEALTH_PORT as int)),
                    ),
                ),
            ).push(("volumeMounts"@, JsonTree::Array(volume_mounts(tls)))).push(
                ("env"@, JsonTree::Array(container_env(min_id, rust_log))),
            ).push(("args"@, text_array(container_args(namespace, tls)))).push(
                ("livenessProbe"@, liveness_probe()),
            ).push(("readinessProbe"@, readiness_probe())),
            "resources"@,
            opt_tree(config.spu_pod_config.resources),
        ),
    )
}

fn build_container(
    namespace: &str,
    min_id: i32,
    config: &ScK8Config,
    tls: &Option<TlsConfig>,
    rust_log: &Option<String>,
) -> (j: Json)
    ensures
        j@ == container(namespace@, min_id as int, *config, *tls, opt_text(*rust_log)),
{
    let ports = Items::new().with(build_named_port("public", "containerPort", SPU_PUBLIC_PORT)).with(
        build_named_port("private", "containerPort", SPU_PRIVATE_PORT),
    ).with(build_named_port("health", "containerPort", HEALTH_PORT)).into_array();
    let args = build_args(namespace, tls);
    let m = Members::new().with("name", Json::text(SPU_DEFAULT_NAME)).with(
        "image",
        Json::text(config.image.as_str()),
    ).with("imagePullPolicy", Json::text("Always")).with("ports", ports).with(
        "volumeMounts",
        build_volume_mounts(tls),
    ).with("env", build_env(min_id, rust_log)).with("args", Json::from_texts(&args)).with(
        "livenessProbe",
        build_liveness_probe(),
    ).with("readinessProbe", build_readiness_probe());
    add_document(m, "resources", &config.spu_pod_config.resources).into_object()
}

/// The pods of a group. What is not configured is left out.
pub open spec fn pod_spec(
    namespace: Seq<char>,
    min_id: int,
    config: ScK8Config,
    tls: Option<TlsConfig>,
    rust_log: Option<Seq<char>>,
) -> JsonTree {
    let pod = config.spu_pod_config;
    let first = no_members().push(("terminationGracePeriodSeconds"@, JsonTree::Int(10))).push(
        (
            "containers"@,
            JsonTree::Array(
                no_items().push(container(namespace, min_id, config, tls, rust_log)),
            ),
        ),
    );
    let second = if tls is Some {
        first.push(("volumes"@, JsonTree::Array(pod_volumes(tls))))
    } else {
        first
    };
    let third = with_document(second, "securityContext"@, opt_tree(config.pod_security_context));
    let fourth = if pod.node_selector.items().len() > 0 {
        third.push(
            ("nodeSelector"@, JsonTree::Object(string_members(pod.node_selector.items()))),
        )
    } else {
        third
    };
    JsonTree::Object(
        match pod.priority_class_name {
            Some(name) => fourth.push(("priorityClassName"@, JsonTree::Text(name@))),
            None => fourth,
        },
    )
}

fn build_pod_spec(
    namespace: &str,
    min_id: i32,
    config: &ScK8Config,
    tls: &Option<TlsConfig>,
    rust_log: &Option<String>,
) -> (j: Json)
    ensures
        j@ == pod_spec(namespace@, min_id as int, *config, *tls, opt_text(*rust_log)),
{
    let containers = Items::new().with(
        build_container(namespace, min_id, config, tls, rust_log),
    ).into_array();
    let mut m = Members::new().with("terminationGracePeriodSeconds", Json::integer(10)).with(
        "containers",
        containers,
    );
    if let Some(t) = tls {
        m = m.with("volumes", build_volumes(t));
    }
    m = add_document(m, "securityContext", &config.pod_security_context);
    let pod: &SpuPodConfig = &config.spu_pod_config;
    if !pod.node_selector.is_empty() {
        m = m.with("nodeSelector", Json::from_strings(&pod.node_selector));
    }
    if let Some(name) = &pod.priority_class_name {
        m = m.with("priorityClassName", Json::text(name.as_str()));
    }
    m.into_object()
}

/// The claim from which each unit gets its volume.
pub open spec fn volume_claim(storage_class: Option<Seq<char>>) -> JsonTree {
    JsonTree::Object(
        no_members().push(
            (
                "metadata"@,
                JsonTree::Object(no_members().push(("name"@, JsonTree::Text("data"@)))),
            ),
        ).push(
            (
                "spec"@,
                JsonTree::Object(
                    no_members().push(
                        (
                            "accessModes"@,
                            JsonTree::Array(no_items().push(JsonTree::Text("ReadWriteOnce"@))),
                        ),
                    ).push(("storageClassName"@, text_or_null(storage_class))).push(
                        (
                            "resources"@,
                            JsonTree::Object(
                                no_members().push(
                                    (
                                        "requests"@,
                                        JsonTree::Object(
                                            no_members().push(
                                                ("storage"@, JsonTree::Text(STORAGE_SIZE@)),
                                            ),
                                        ),
                                    ),
                                ),
                            ),
                        ),
                    ),
                ),
            ),
        ),
    )
}

fn build_volume_claim(storage_class: &Option<String>) -> (j: Json)
    ensures
        j@ == volume_claim(opt_text(*storage_class)),
{
    let metadata = Members::new().with("name", Json::text("data")).into_object();
    let requests = Members::new().with("storage", Json::text(STORAGE_SIZE)).into_object();
    let resources = Members::new().with("requests", requests).into_object();
    let modes = Items::new().with(Json::text("ReadWriteOnce")).into_array();
    let spec = Members::new().with("accessModes", modes).with(
        "storageClassName",
        Json::text_or_null(storage_class),
    ).with("resources", resources).into_object();
    Members::new().with("metadata", metadata).with("spec", spec).into_object()
}

/// The stateful set of a group.
pub open spec fn stateful_set(
    group: Seq<char>,
    namespace: Seq<char>,
    replicas: int,
    min_id: int,
    config: ScK8Config,
    tls: Option<TlsConfig>,
    rust_log: Option<Seq<char>>,
    owner: OwnerReference,
) -> JsonTree {
    let template = JsonTree::Object(
        no_members().push(
            (
                "metadata"@,
                JsonTree::Object(no_members().push(("labels"@, pod_labels(group)))),
            ),
        ).push(("spec"@, pod_spec(namespace, min_id, config, tls, rust_log))),
    );
    JsonTree::Object(
        no_members().push(("apiVersion"@, JsonTree::Text("apps/v1"@))).push(
            ("kind"@, JsonTree::Text("StatefulSet"@)),
        ).push(("metadata"@, owned_metadata(set_name(group), namespace, owner))).push(
            (
                "spec"@,
                JsonTree::Object(
                    no_members().push(("replicas"@, JsonTree::Int(replicas))).push(
                        ("serviceName"@, JsonTree::Text(set_name(group))),
                    ).push(
                        (
                            "selector"@,
                            JsonTree::Object(
                                no_members().push(("matchLabels"@, pod_labels(group))),
                            ),
                        ),
                    ).push(("template"@, template)).push(
                        (
                            "volumeClaimTemplates"@,
                            JsonTree::Array(
                                no_items().push(
                                    volume_claim(opt_text(config.spu_pod_config.storage_class)),
                                ),
                            ),
                        ),
                    ),
                ),
            ),
        ),
    )
}

/// Builds the stateful set of a group. `rust_log` is the log filter of this process, which the
/// units inherit.
pub fn build_statefulset(
    group_name: &str,
    namespace: &str,
    replicas: i32,
    min_id: i32,
    config: &ScK8Config,
    tls_config: &Option<TlsConfig>,
    rust_log: &Option<String>,
    owner_ref: &OwnerReference,
) -> (j: Json)
    ensures
        j@ == stateful_set(
            group_name@,
            namespace@,
            replicas as int,
            min_id as int,
            *config,
            *tls_config,
            opt_text(*rust_log),
            *owner_ref,
        ),
{
    let name = group_set_name(group_name);
    let labels = Members::new().with("labels", build_pod_labels(group_name)).into_object();
    let template = Members::new().with("metadata", labels).with(
        "spec",
        build_pod_spec(namespace, min_id, config, tls_config, rust_log),
    ).into_object();
    let selector = Members::new().with("matchLabels", build_pod_labels(group_name)).into_object();
    let claims = Items::new().with(
        build_volume_claim(&config.spu_pod_config.storage_class),
    ).into_array();
    let spec = Members::new().with("replicas", Json::integer(replicas as i64)).with(
        "serviceName",
        Json::text(name.as_str()),
    ).with("selector", selector).with("template", template).with(
        "volumeClaimTemplates",
        claims,
    ).into_object();
    Members::new().with("apiVersion", Json::text("apps/v1")).with(
        "kind",
        Json::text("StatefulSet"),
    ).with("metadata", build_owned_metadata(name.as_str(), namespace, owner_ref)).with(
        "spec",
        spec,
    ).into_object()
}

/// The stateful set and the headless service of a group fit together: the set names the service
/// as its own, the set selects the pods that it makes, and so does the service.
pub proof fn law_set_and_service_fit(
    group: Seq<char>,
    namespace: Seq<char>,
    replicas: int,
    min_id: int,
    config: ScK8Config,
    tls: Option<TlsConfig>,
    rust_log: Option<Seq<char>>,
    owner: OwnerReference,
)
    ensures
        ({
            let set = stateful_set(
                group,
                namespace,
                replicas,
                min_id,
                config,
                tls,
                rust_log,
                owner,
            );
            let service = headless_service(group, namespace, owner);
            let spec = set.get("spec"@)->0;
            let service_spec = service.get("spec"@)->0;
            let template = spec.get("template"@)->0;
            &&& spec.get("serviceName"@) == service.get("metadata"@)->0.get("name"@)
            &&& spec.get("serviceName"@) is Some
            &&& spec.get("selector"@)->0.get("matchLabels"@) == Some(pod_labels(group))
            &&& template.get("metadata"@)->0.get("labels"@) == Some(pod_labels(group))
            &&& service_spec.get("selector"@) == Some(pod_labels(group))
        }),
{
    reveal_strlit("apiVersion");
    reveal_strlit("kind");
    reveal_strlit("metadata");
    reveal_strlit("spec");
    reveal_strlit("replicas");
    reveal_strlit("serviceName");
    reveal_strlit("selector");
    reveal_strlit("template");
    reveal_strlit("matchLabels");
    reveal_strlit("labels");
    reveal_strlit("name");
    reveal_strlit("clusterIP");
    assert("apiVersion"@.len() == 10 && "kind"@.len() == 4 && "metadata"@.len() == 8 && "spec"@.len()
        == 4 && "kind"@[0] == 'k' && "spec"@[0] == 's');
    assert("replicas"@.len() == 8 && "serviceName"@.len() == 11 && "selector"@.len() == 8
        && "template"@.len() == 8 && "clusterIP"@.len() == 9);
    assert("replicas"@[0] == 'r' && "selector"@[0] == 's' && "template"@[0] == 't');
    let set = stateful_set(group, namespace, replicas, min_id, config, tls, rust_log, owner);
    let service = headless_service(group, namespace, owner);
    lemma_find_member(set->Object_0, 3);
    lemma_find_member(service->Object_0, 2);
    lemma_find_member(service->Object_0, 3);
    let spec = set->Object_0[3].1;
    let service_spec = service->Object_0[3].1;
    lemma_find_member(service->Object_0[2].1->Object_0, 0);
    lemma_find_member(service_spec->Object_0, 1);
    lemma_find_member(spec->Object_0, 1);
    lemma_find_member(spec->Object_0, 2);
    lemma_find_member(spec->Object_0, 3);
    lemma_find_member(spec->Object_0[2].1->Object_0, 0);
    let template = spec->Object_0[3].1;
    lemma_find_member(template->Object_0, 0);
    lemma_find_member(template->Object_0[0].1->Object_0, 0);
}

} // verus!
