//! What the stateful set of a group holds.
use vstd::prelude::*;

use crate::decimal::{digits, numeral};
use crate::json::{
    find_member, law_strings_are_read_back, lemma_find_none, lemma_find_push, no_items, no_members,
    opt_tree, string_members, text_array, JsonTree,
};
use crate::k8::objects::{OwnerReference, ScK8Config, TlsConfig};
use crate::k8::statefulset::{
    container, container_args, container_env, data_dir, headless_service, liveness_probe,
    named_port, owned_metadata, pod_labels, pod_spec, pod_volumes, read_only_mount, readiness_probe,
    stateful_set, text_or_empty, volume_claim, volume_mounts,
};
use crate::string_map::unique_keys;
use crate::text::opt_text;

verus! {

/// The pods that a stateful set makes.
pub open spec fn pod_of(set: JsonTree) -> JsonTree {
    set.get("spec"@)->0.get("template"@)->0.get("spec"@)->0
}

/// The container of a pod.
pub open spec fn container_of(set: JsonTree) -> JsonTree {
    pod_of(set).get("containers"@)->0->Array_0[0]
}

/// The stateful set of a group has the number of units that is wanted, stands in the namespace under
/// the name of the group, and belongs to the owner. The pods that it makes carry the labels by which
/// it finds them again, which name the group.
pub proof fn law_set_is_that_of_its_group(
    group: Seq<char>,
    namespace: Seq<char>,
    replicas: int,
    min_id: int,
    config: ScK8Config,
    tls: Option<TlsConfig>,
    rust_log: Option<Seq<char>>,
    owner: OwnerReference,
)
    ensures
        ({
            let set = stateful_set(
                group,
                namespace,
                replicas,
                min_id,
                config,
                tls,
                rust_log,
                owner,
            );
            let spec = set.get("spec"@)->0;
            let metadata = set.get("metadata"@)->0;
            let owners = metadata.get("ownerReferences"@)->0->Array_0;
            let selected = spec.get("selector"@)->0.get("matchLabels"@)->0;
            let labels = spec.get("template"@)->0.get("metadata"@)->0.get("labels"@)->0;
            &&& set.get("apiVersion"@) == Some(JsonTree::Text("apps/v1"@))
            &&& set.get("kind"@) == Some(JsonTree::Text("StatefulSet"@))
            &&& spec.get("replicas"@) == Some(JsonTree::Int(replicas))
            &&& spec.get("serviceName"@) == Some(JsonTree::Text("fluvio-spg-"@ + group))
            &&& metadata.get("name"@) == Some(JsonTree::Text("fluvio-spg-"@ + group))
            &&& metadata.get("namespace"@) == Some(JsonTree::Text(namespace))
            &&& metadata.get("ownerReferences"@) is Some
            &&& owners.len() == 1 && owners[0] == owner.document()
            &&& selected.get("app"@) == Some(JsonTree::Text("spu"@))
            &&& selected.get("group"@) == Some(JsonTree::Text(group))
            &&& labels == selected
        }),
{
    broadcast use lemma_find_push, lemma_find_none;

    let set = stateful_set(group, namespace, replicas, min_id, config, tls, rust_log, owner);
    reveal_strlit("apiVersion");
    reveal_strlit("kind");
    reveal_strlit("metadata");
    reveal_strlit("spec");
    reveal_strlit("replicas");
    reveal_strlit("serviceName");
    reveal_strlit("selector");
    reveal_strlit("template");
    reveal_strlit("name");
    reveal_strlit("namespace");
    reveal_strlit("ownerReferences");
    reveal_strlit("app");
    reveal_strlit("group");
    reveal_strlit("matchLabels");
    reveal_strlit("labels");
    assert("kind"@[0] == 'k' && "spec"@[0] == 's');
    assert("metadata"@.len() == 8 && "name"@.len() == 4 && "namespace"@.len() == 9);
    assert("apiVersion"@.len() == 10 && "kind"@.len() == 4 && "spec"@.len() == 4);
    assert("ownerReferences"@.len() == 15);
    assert(set.get("metadata"@) == Some(owned_metadata("fluvio-spg-"@ + group, namespace, owner)));
    assert(set.get("metadata"@)->0.get("name"@) == Some(JsonTree::Text("fluvio-spg-"@ + group)));
    assert("replicas"@[0] == 'r' && "selector"@[0] == 's' && "template"@[0] == 't');
    assert("replicas"@.len() == 8 && "selector"@.len() == 8 && "template"@.len() == 8
        && "serviceName"@.len() == 11);
    assert("app"@.len() == 3 && "group"@.len() == 5);
    let spec = set.get("spec"@)->0;
    let chosen = JsonTree::Object(no_members().push(("matchLabels"@, pod_labels(group))));
    assert(spec.get("selector"@) == Some(chosen));
    assert(chosen.get("matchLabels"@) == Some(pod_labels(group)));
    assert(pod_labels(group).get("app"@) == Some(JsonTree::Text("spu"@)));
    let marks = JsonTree::Object(no_members().push(("labels"@, pod_labels(group))));
    assert(spec.get("template"@)->0.get("metadata"@) == Some(marks));
    assert(marks.get("labels"@) == Some(pod_labels(group)));
}

/// The pods and the container of a stateful set.
proof fn lemma_pod_and_container(
    group: Seq<char>,
    namespace: Seq<char>,
    replicas: int,
    min_id: int,
    config: ScK8Config,
    tls: Option<TlsConfig>,
    rust_log: Option<Seq<char>>,
    owner: OwnerReference,
)
    ensures
        ({
            let set = stateful_set(
                group,
                namespace,
                replicas,
                min_id,
                config,
                tls,
                rust_log,
                owner,
            );
            let spec = set.get("spec"@)->0;
            &&& set.get("spec"@) is Some
            &&& spec.get("template"@) is Some
            &&& spec.get("template"@)->0.get("spec"@) is Some
            &&& pod_of(set) == pod_spec(namespace, min_id, config, tls, rust_log)
            &&& pod_of(set).get("containers"@) == Some(
                JsonTree::Array(
                    no_items().push(container(namespace, min_id, config, tls, rust_log)),
                ),
            )
            &&& container_of(set) == container(namespace, min_id, config, tls, rust_log)
            &&& spec.get("volumeClaimTemplates"@) == Some(
                JsonTree::Array(
                    no_items().push(volume_claim(opt_text(config.spu_pod_config.storage_class))),
                ),
            )
        }),
{
    broadcast use lemma_find_push, lemma_find_none;

    let set = stateful_set(group, namespace, replicas, min_id, config, tls, rust_log, owner);
    reveal_strlit("apiVersion");
    reveal_strlit("kind");
    reveal_strlit("metadata");
    reveal_strlit("spec");
    reveal_strlit("replicas");
    reveal_strlit("serviceName");
    reveal_strlit("selector");
    reveal_strlit("template");
    reveal_strlit("volumeClaimTemplates");
    reveal_strlit("terminationGracePeriodSeconds");
    reveal_strlit("containers");
    reveal_strlit("volumes");
    reveal_strlit("securityContext");
    reveal_strlit("nodeSelector");
    reveal_strlit("priorityClassName");
    assert("kind"@[0] == 'k' && "spec"@[0] == 's' && "kind"@.len() == 4 && "spec"@.len() == 4);
    assert("apiVersion"@.len() == 10 && "metadata"@.len() == 8);
    assert("replicas"@[0] == 'r' && "selector"@[0] == 's' && "template"@[0] == 't');
    assert("replicas"@.len() == 8 && "selector"@.len() == 8 && "template"@.len() == 8
        && "serviceName"@.len() == 11 && "volumeClaimTemplates"@.len() == 20);
    assert("terminationGracePeriodSeconds"@.len() == 29 && "containers"@.len() == 10);
    let pod = pod_spec(namespace, min_id, config, tls, rust_log);
    let spec = set.get("spec"@)->0;
    assert(set.get("spec"@) is Some);
    assert(spec.get("template"@) is Some);
    assert(spec.get("template"@)->0.get("spec"@) == Some(pod));
    let list = JsonTree::Array(
        no_items().push(container(namespace, min_id, config, tls, rust_log)),
    );
    let first = no_members().push(("terminationGracePeriodSeconds"@, JsonTree::Int(10))).push(
        ("containers"@, list),
    );
    assert(find_member(first, "containers"@) == Some(list));
    assert(pod.get("containers"@) == Some(list));
}

/// The texts of an array.
pub open spec fn texts_in(array: JsonTree) -> Seq<Seq<char>> {
    array->Array_0.map_values(|item: JsonTree| item->Text_0)
}

/// The arguments with which the container of a stateful set is started.
pub open spec fn args_of(set: JsonTree) -> Seq<Seq<char>> {
    texts_in(container_of(set).get("args"@)->0)
}

/// Whether `flag` stands among the arguments with `value` behind it.
pub open spec fn has_option(args: Seq<Seq<char>>, flag: Seq<char>, value: Seq<char>) -> bool {
    exists|i: int| 0 <= i < args.len() - 1 && #[trigger] args[i] == flag && args[i + 1] == value
}

/// Whether `value` stands behind `flag` wherever it is among the arguments.
pub open spec fn option_is(args: Seq<Seq<char>>, flag: Seq<char>, value: Seq<char>) -> bool {
    forall|i: int|
        0 <= i < args.len() && #[trigger] args[i] == flag ==> i + 1 < args.len() && args[i + 1]
            == value
}

proof fn lemma_args_found(
    group: Seq<char>,
    namespace: Seq<char>,
    replicas: int,
    min_id: int,
    config: ScK8Config,
    tls: Option<TlsConfig>,
    rust_log: Option<Seq<char>>,
    owner: OwnerReference,
)
    ensures
        ({
            let set = stateful_set(
                group,
                namespace,
                replicas,
                min_id,
                config,
                tls,
                rust_log,
                owner,
            );
            &&& container_of(set).get("args"@) == Some(text_array(container_args(namespace, tls)))
            &&& args_of(set) == container_args(namespace, tls)
        }),
{
    broadcast use lemma_find_push, lemma_find_none;

    let set = stateful_set(group, namespace, replicas, min_id, config, tls, rust_log, owner);
    lemma_pod_and_container(group, namespace, replicas, min_id, config, tls, rust_log, owner);
    lemma_container_keys();
    let args = container_args(namespace, tls);
    assert(container_of(set).get("args"@) == Some(text_array(args)));
    assert(args_of(set) =~= args);
}

/// The keys of a container differ.
proof fn lemma_container_keys()
    ensures
        "name"@.len() == 4,
        "image"@.len() == 5 && "image"@[0] == 'i',
        "ports"@.len() == 5 && "ports"@[0] == 'p',
        "imagePullPolicy"@.len() == 15,
        "volumeMounts"@.len() == 12,
        "env"@.len() == 3,
        "args"@.len() == 4,
        "name"@[0] == 'n' && "args"@[0] == 'a',
        "livenessProbe"@.len() == 13,
        "readinessProbe"@.len() == 14,
        "resources"@.len() == 9,
{
    reveal_strlit("name");
    reveal_strlit("image");
    reveal_strlit("imagePullPolicy");
    reveal_strlit("ports");
    reveal_strlit("volumeMounts");
    reveal_strlit("env");
    reveal_strlit("args");
    reveal_strlit("livenessProbe");
    reveal_strlit("readinessProbe");
    reveal_strlit("resources");
}

/// How the arguments of a unit begin: their lengths and first characters tell them apart.
proof fn lemma_arg_texts(namespace: Seq<char>)
    ensures
        "spu"@.len() == 3,
        "--sc-addr"@.len() == 9 && "--sc-addr"@[0] == '-' && "--sc-addr"@[2] == 's',
        ("fluvio-sc-internal."@ + namespace + ".svc.cluster.local:"@ + digits(9004))[0] == 'f',
        "--log-base-dir"@.len() == 14 && "--log-base-dir"@[0] == '-',
        "/var/lib/fluvio/data"@.len() == 20 && "/var/lib/fluvio/data"@[0] == '/',
        data_dir() == "/var/lib/fluvio/data"@,
        "--log-size"@.len() == 10 && "--log-size"@[0] == '-',
        "10Gi"@.len() == 4 && "10Gi"@[0] == '1',
        "--tls"@.len() == 5 && "--tls"@[0] == '-',
        "--enable-client-cert"@.len() == 20 && "--enable-client-cert"@[0] == '-',
        "--ca-cert"@.len() == 9 && "--ca-cert"@[0] == '-' && "--ca-cert"@[2] == 'c',
        "--server-cert"@.len() == 13 && "--server-cert"@[0] == '-',
        "--server-key"@.len() == 12 && "--server-key"@[0] == '-',
        "--bind-non-tls-public"@.len() == 21 && "--bind-non-tls-public"@[0] == '-',
        "0.0.0.0:9007"@.len() == 12 && "0.0.0.0:9007"@[0] == '0',
        digits(9004) == "9004"@,
{
    reveal_strlit("spu");
    reveal_strlit("--sc-addr");
    reveal_strlit("fluvio-sc-internal.");
    reveal_strlit("--log-base-dir");
    reveal_strlit("/var/lib/");
    reveal_strlit("fluvio");
    reveal_strlit("/data");
    reveal_strlit("/var/lib/fluvio/data");
    reveal_strlit("--log-size");
    reveal_strlit("10Gi");
    reveal_strlit("--tls");
    reveal_strlit("--enable-client-cert");
    reveal_strlit("--ca-cert");
    reveal_strlit("--server-cert");
    reveal_strlit("--server-key");
    reveal_strlit("--bind-non-tls-public");
    reveal_strlit("0.0.0.0:9007");
    reveal_strlit("9004");
    assert(data_dir() =~= "/var/lib/fluvio/data"@);
    reveal_with_fuel(digits, 5);
    assert(digits(9004) =~= "9004"@);
}

/// A unit is started with the addresses and directories that it needs, and with `--tls` exactly where
/// connections are secured, whether clients need certificates or not. The certificate and the key
/// of the server are then those configured, and so is the certificate of the authority where
/// clients need certificates.
pub proof fn law_unit_is_started_with_tls_iff_configured(
    group: Seq<char>,
    namespace: Seq<char>,
    replicas: int,
    min_id: int,
    config: ScK8Config,
    tls: Option<TlsConfig>,
    rust_log: Option<Seq<char>>,
    owner: OwnerReference,
)
    ensures
        ({
            let set = stateful_set(
                group,
                namespace,
                replicas,
                min_id,
                config,
                tls,
                rust_log,
                owner,
            );
            let args = args_of(set);
            let none = Seq::<char>::empty();
            &&& container_of(set).get("args"@) matches Some(JsonTree::Array(items))
            &&& forall|i: int| 0 <= i < items.len() ==> (#[trigger] items[i]) is Text
            &&& items.len() == args.len()
            &&& args[0] == "spu"@
            &&& has_option(
                args,
                "--sc-addr"@,
                "fluvio-sc-internal."@ + namespace + ".svc.cluster.local:"@ + "9004"@,
            )
            &&& has_option(args, "--log-base-dir"@, "/var/lib/fluvio/data"@)
            &&& has_option(args, "--log-size"@, "10Gi"@)
            &&& args.contains("--tls"@) <==> tls is Some
            &&& match tls {
                Some(t) => {
                    &&& has_option(args, "--server-cert"@, opt_text(t.server_cert).unwrap_or(none))
                    &&& has_option(args, "--server-key"@, opt_text(t.server_key).unwrap_or(none))
                    &&& has_option(args, "--bind-non-tls-public"@, "0.0.0.0:9007"@)
                    &&& t.enable_client_cert ==> args.contains("--enable-client-cert"@)
                    &&& t.enable_client_cert ==> has_option(
                        args,
                        "--ca-cert"@,
                        opt_text(t.ca_cert).unwrap_or(none),
                    )
                    &&& args.len() == if t.enable_client_cert {
                        17int
                    } else {
                        14
                    }
                },
                None => args.len() == 7,
            }
        }),
{
    let set = stateful_set(group, namespace, replicas, min_id, config, tls, rust_log, owner);
    lemma_args_found(group, namespace, replicas, min_id, config, tls, rust_log, owner);
    lemma_arg_texts(namespace);
    let args = args_of(set);
    assert(args[1] == "--sc-addr"@ && args[2] == "fluvio-sc-internal."@ + namespace
        + ".svc.cluster.local:"@ + "9004"@);
    assert(args[3] == "--log-base-dir"@ && args[4] == "/var/lib/fluvio/data"@);
    assert(args[5] == "--log-size"@ && args[6] == "10Gi"@);
    match tls {
        Some(t) => {
            assert(args[7] == "--tls"@);
            if t.enable_client_cert {
                assert(args[8] == "--enable-client-cert"@);
                assert(args[9] == "--ca-cert"@);
                assert(args[11] == "--server-cert"@);
                assert(args[13] == "--server-key"@);
                assert(args[15] == "--bind-non-tls-public"@);
            } else {
                assert(args[8] == "--server-cert"@);
                assert(args[10] == "--server-key"@);
                assert(args[12] == "--bind-non-tls-public"@);
            }
        },
        None => {
            assert(args.len() == 7);
            assert(forall|i: int| 0 <= i < 7 ==> #[trigger] args[i] != "--tls"@);
        },
    }
}

/// Whether a configured text cannot be taken for a flag.
pub open spec fn is_no_flag(text: Option<String>) -> bool {
    text matches Some(t) ==> !(t@.len() > 0 && t@[0] == '-')
}

/// Where the configured paths cannot be taken for flags, each flag is among the arguments exactly
/// where it belongs there, and has its value behind it: those for the server where connections are
/// secured, those for clients where clients need certificates too.
pub proof fn law_flags_of_a_unit(
    group: Seq<char>,
    namespace: Seq<char>,
    replicas: int,
    min_id: int,
    config: ScK8Config,
    tls: Option<TlsConfig>,
    rust_log: Option<Seq<char>>,
    owner: OwnerReference,
)
    requires
        tls matches Some(t) ==> is_no_flag(t.ca_cert) && is_no_flag(t.server_cert) && is_no_flag(
            t.server_key,
        ),
    ensures
        ({
            let set = stateful_set(
                group,
                namespace,
                replicas,
                min_id,
                config,
                tls,
                rust_log,
                owner,
            );
            let args = args_of(set);
            let none = Seq::<char>::empty();
            let clients = tls is Some && tls->0.enable_client_cert;
            &&& args.contains("--tls"@) <==> tls is Some
            &&& args.contains("--server-cert"@) <==> tls is Some
            &&& args.contains("--server-key"@) <==> tls is Some
            &&& args.contains("--bind-non-tls-public"@) <==> tls is Some
            &&& args.contains("--enable-client-cert"@) <==> clients
            &&& args.contains("--ca-cert"@) <==> clients
            &&& option_is(args, "--log-base-dir"@, "/var/lib/fluvio/data"@)
            &&& option_is(args, "--log-size"@, "10Gi"@)
            &&& option_is(args, "--bind-non-tls-public"@, "0.0.0.0:9007"@)
            &&& tls matches Some(t) ==> {
                &&& option_is(args, "--server-cert"@, opt_text(t.server_cert).unwrap_or(none))
                &&& option_is(args, "--server-key"@, opt_text(t.server_key).unwrap_or(none))
                &&& option_is(args, "--ca-cert"@, opt_text(t.ca_cert).unwrap_or(none))
            }
        }),
{
    let set = stateful_set(group, namespace, replicas, min_id, config, tls, rust_log, owner);
    lemma_args_found(group, namespace, replicas, min_id, config, tls, rust_log, owner);
    lemma_arg_texts(namespace);
    let args = args_of(set);
    assert(args[0] == "spu"@);
    assert(args[1] == "--sc-addr"@ && args[2] == "fluvio-sc-internal."@ + namespace
        + ".svc.cluster.local:"@ + "9004"@);
    assert(args[3] == "--log-base-dir"@ && args[4] == "/var/lib/fluvio/data"@);
    assert(args[5] == "--log-size"@ && args[6] == "10Gi"@);
    match tls {
        Some(t) => {
            assert(args[7] == "--tls"@);
            if t.enable_client_cert {
                assert(args.len() == 17);
                assert(args[8] == "--enable-client-cert"@);
                assert(args[9] == "--ca-cert"@ && args[10] == text_or_empty(t.ca_cert));
                assert(args[11] == "--server-cert"@ && args[12] == text_or_empty(t.server_cert));
                assert(args[13] == "--server-key"@ && args[14] == text_or_empty(t.server_key));
                assert(args[15] == "--bind-non-tls-public"@ && args[16] == "0.0.0.0:9007"@);
            } else {
                assert(args.len() == 14);
                assert(args[8] == "--server-cert"@ && args[9] == text_or_empty(t.server_cert));
                assert(args[10] == "--server-key"@ && args[11] == text_or_empty(t.server_key));
                assert(args[12] == "--bind-non-tls-public"@ && args[13] == "0.0.0.0:9007"@);
            }
        },
        None => {
            assert(args.len() == 7);
        },
    }
}

/// Whether a document is an array one of whose items has `value` under `key` and `other_value` under
/// `other`.
pub open spec fn has_item(
    array: Option<JsonTree>,
    key: Seq<char>,
    value: JsonTree,
    other: Seq<char>,
    other_value: JsonTree,
) -> bool {
    &&& array matches Some(JsonTree::Array(items))
    &&& exists|i: int|
        0 <= i < items.len() && (#[trigger] items[i]).get(key) == Some(value) && items[i].get(other)
            == Some(other_value)
}

/// Whether a document is an array none of whose items has `value` under `key`.
pub open spec fn lacks_item(array: Option<JsonTree>, key: Seq<char>, value: JsonTree) -> bool {
    &&& array matches Some(JsonTree::Array(items))
    &&& forall|i: int| 0 <= i < items.len() ==> (#[trigger] items[i]).get(key) != Some(value)
}

proof fn lemma_env_keys()
    ensures
        "name"@.len() == 4,
        "value"@.len() == 5,
        "valueFrom"@.len() == 9,
        "fieldRef"@.len() == 8,
        "fieldPath"@.len() == 9,
        "SPU_INDEX"@.len() == 9,
        "SPU_MIN"@.len() == 7,
        "FLV_SHORT_RECONCILLATION"@.len() == 24,
        "RUST_LOG"@.len() == 8,
{
    reveal_strlit("name");
    reveal_strlit("value");
    reveal_strlit("valueFrom");
    reveal_strlit("fieldRef");
    reveal_strlit("fieldPath");
    reveal_strlit("SPU_INDEX");
    reveal_strlit("SPU_MIN");
    reveal_strlit("FLV_SHORT_RECONCILLATION");
    reveal_strlit("RUST_LOG");
}

/// A unit finds in its environment the name of its pod, the first identifier of its group, and the log
/// filter of this process exactly where that has one.
pub proof fn law_environment_of_a_unit(
    group: Seq<char>,
    namespace: Seq<char>,
    replicas: int,
    min_id: int,
    config: ScK8Config,
    tls: Option<TlsConfig>,
    rust_log: Option<Seq<char>>,
    owner: OwnerReference,
)
    ensures
        ({
            let set = stateful_set(
                group,
                namespace,
                replicas,
                min_id,
                config,
                tls,
                rust_log,
                owner,
            );
            let env = container_of(set).get("env"@);
            let name = JsonTree::Text("SPU_INDEX"@);
            &&& has_item(
                env,
                "name"@,
                JsonTree::Text("SPU_MIN"@),
                "value"@,
                JsonTree::Text(numeral(min_id)),
            )
            &&& has_item(
                env,
                "name"@,
                JsonTree::Text("FLV_SHORT_RECONCILLATION"@),
                "value"@,
                JsonTree::Text("1"@),
            )
            &&& env matches Some(JsonTree::Array(items)) && exists|i: int|
                0 <= i < items.len() && (#[trigger] items[i]).get("name"@) == Some(name)
                    && items[i].get("valueFrom"@)->0.get("fieldRef"@)->0.get("fieldPath"@) == Some(
                    JsonTree::Text("metadata.name"@),
                )
            &&& match rust_log {
                Some(filter) => has_item(
                    env,
                    "name"@,
                    JsonTree::Text("RUST_LOG"@),
                    "value"@,
                    JsonTree::Text(filter),
                ),
                None => lacks_item(env, "name"@, JsonTree::Text("RUST_LOG"@)),
            }
        }),
{
    broadcast use lemma_find_push, lemma_find_none;

    let set = stateful_set(group, namespace, replicas, min_id, config, tls, rust_log, owner);
    lemma_pod_and_container(group, namespace, replicas, min_id, config, tls, rust_log, owner);
    lemma_container_keys();
    lemma_env_keys();
    let items = container_env(min_id, rust_log);
    assert(container_of(set).get("env"@) == Some(JsonTree::Array(items)));
    assert(items[0].get("name"@) == Some(JsonTree::Text("SPU_INDEX"@)));
    let from = items[0].get("valueFrom"@)->0;
    assert(items[0].get("valueFrom"@) is Some);
    assert(from.get("fieldRef"@) is Some);
    assert(from.get("fieldRef"@)->0.get("fieldPath"@) == Some(JsonTree::Text("metadata.name"@)));
    assert(items[1].get("name"@) == Some(JsonTree::Text("SPU_MIN"@)));
    assert(items[1].get("value"@) == Some(JsonTree::Text(numeral(min_id))));
    assert(items[2].get("name"@) == Some(JsonTree::Text("FLV_SHORT_RECONCILLATION"@)));
    assert(items[2].get("value"@) == Some(JsonTree::Text("1"@)));
    match rust_log {
        Some(filter) => {
            assert(items[3].get("name"@) == Some(JsonTree::Text("RUST_LOG"@)));
            assert(items[3].get("value"@) == Some(JsonTree::Text(filter)));
        },
        None => {
            assert(items.len() == 3);
            assert forall|i: int| 0 <= i < items.len() implies (#[trigger] items[i]).get("name"@)
                != Some(JsonTree::Text("RUST_LOG"@)) by {
                assert(i == 0 || i == 1 || i == 2);
            }
        },
    }
}

proof fn lemma_volume_keys()
    ensures
        "name"@.len() == 4,
        "mountPath"@.len() == 9,
        "readOnly"@.len() == 8,
        "secret"@.len() == 6,
        "secretName"@.len() == 10,
        "data"@.len() == 4,
        "tls"@.len() == 3,
        "cacert"@.len() == 6,
{
    reveal_strlit("name");
    reveal_strlit("mountPath");
    reveal_strlit("readOnly");
    reveal_strlit("secret");
    reveal_strlit("secretName");
    reveal_strlit("data");
    reveal_strlit("tls");
    reveal_strlit("cacert");
}

/// The data of a unit is mounted where it is told to keep it. The certificates of the server are
/// mounted exactly where connections are secured, and those of the authority exactly where clients
/// need certificates too; and both come from volumes of the pod with the configured secrets.
pub proof fn law_certificates_are_mounted_iff_configured(
    group: Seq<char>,
    namespace: Seq<char>,
    replicas: int,
    min_id: int,
    config: ScK8Config,
    tls: Option<TlsConfig>,
    rust_log: Option<Seq<char>>,
    owner: OwnerReference,
)
    ensures
        ({
            let set = stateful_set(
                group,
                namespace,
                replicas,
                min_id,
                config,
                tls,
                rust_log,
                owner,
            );
            let mounts = container_of(set).get("volumeMounts"@);
            let volumes = pod_of(set).get("volumes"@);
            &&& has_item(
                mounts,
                "name"@,
                JsonTree::Text("data"@),
                "mountPath"@,
                JsonTree::Text("/var/lib/fluvio/data"@),
            )
            &&& match tls {
                Some(t) => {
                    &&& has_item(
                        mounts,
                        "name"@,
                        JsonTree::Text("tls"@),
                        "mountPath"@,
                        JsonTree::Text("/var/certs/tls"@),
                    )
                    &&& has_item(
                        mounts,
                        "name"@,
                        JsonTree::Text("tls"@),
                        "readOnly"@,
                        JsonTree::Bool(true),
                    )
                    &&& volumes matches Some(JsonTree::Array(items)) && exists|i: int|
                        0 <= i < items.len() && (#[trigger] items[i]).get("name"@) == Some(
                            JsonTree::Text("tls"@),
                        ) && items[i].get("secret"@)->0.get("secretName"@) == Some(
                            JsonTree::Text(
                                match t.secret_name {
                                    Some(secret) => secret@,
                                    None => "fluvio-tls"@,
                                },
                            ),
                        )
                    &&& if t.enable_client_cert {
                        &&& has_item(
                            mounts,
                            "name"@,
                            JsonTree::Text("cacert"@),
                            "mountPath"@,
                            JsonTree::Text("/var/certs/ca"@),
                        )
                        &&& has_item(
                            mounts,
                            "name"@,
                            JsonTree::Text("cacert"@),
                            "readOnly"@,
                            JsonTree::Bool(true),
                        )
                        &&& volumes matches Some(JsonTree::Array(items)) && exists|i: int|
                            0 <= i < items.len() && (#[trigger] items[i]).get("name"@) == Some(
                                JsonTree::Text("cacert"@),
                            ) && items[i].get("secret"@)->0.get("secretName"@) == Some(
                                JsonTree::Text("fluvio-ca"@),
                            )
                    } else {
                        &&& lacks_item(mounts, "name"@, JsonTree::Text("cacert"@))
                        &&& lacks_item(volumes, "name"@, JsonTree::Text("cacert"@))
                    }
                },
                None => {
                    &&& lacks_item(mounts, "name"@, JsonTree::Text("tls"@))
                    &&& lacks_item(mounts, "name"@, JsonTree::Text("cacert"@))
                    &&& volumes is None
                },
            }
        }),
{
    broadcast use lemma_find_push, lemma_find_none;

    let set = stateful_set(group, namespace, replicas, min_id, config, tls, rust_log, owner);
    lemma_pod_and_container(group, namespace, replicas, min_id, config, tls, rust_log, owner);
    lemma_container_keys();
    lemma_volume_keys();
    lemma_pod_members(namespace, min_id, config, tls, rust_log);
    lemma_arg_texts(namespace);
    let mounts = volume_mounts(tls);
    assert(container_of(set).get("volumeMounts"@) == Some(JsonTree::Array(mounts)));
    assert(mounts[0].get("name"@) == Some(JsonTree::Text("data"@)));
    assert(mounts[0].get("mountPath"@) == Some(JsonTree::Text("/var/lib/fluvio/data"@)));
    match tls {
        Some(t) => {
            let volumes = pod_volumes(tls);
            let at: int = if t.enable_client_cert {
                1
            } else {
                0
            };
            assert(mounts[1 + at] == read_only_mount("tls"@, "/var/certs/tls"@));
            assert(mounts[1 + at].get("name"@) == Some(JsonTree::Text("tls"@)));
            assert(mounts[1 + at].get("mountPath"@) == Some(JsonTree::Text("/var/certs/tls"@)));
            assert(mounts[1 + at].get("readOnly"@) == Some(JsonTree::Bool(true)));
            assert(volumes[at].get("name"@) == Some(JsonTree::Text("tls"@)));
            let secret = volumes[at].get("secret"@)->0;
            assert(volumes[at].get("secret"@) is Some);
            assert(secret.get("secretName"@) is Some);
            if t.enable_client_cert {
                assert(mounts[1].get("name"@) == Some(JsonTree::Text("cacert"@)));
                assert(mounts[1].get("mountPath"@) == Some(JsonTree::Text("/var/certs/ca"@)));
                assert(mounts[1].get("readOnly"@) == Some(JsonTree::Bool(true)));
                assert(volumes[0].get("name"@) == Some(JsonTree::Text("cacert"@)));
                let authority = volumes[0].get("secret"@)->0;
                assert(volumes[0].get("secret"@) is Some);
                assert(authority.get("secretName"@) == Some(JsonTree::Text("fluvio-ca"@)));
            } else {
                assert(mounts.len() == 2 && volumes.len() == 1);
            }
        },
        None => {
            assert(mounts.len() == 1);
        },
    }
}

/// What the pods hold besides their container.
proof fn lemma_pod_members(
    namespace: Seq<char>,
    min_id: int,
    config: ScK8Config,
    tls: Option<TlsConfig>,
    rust_log: Option<Seq<char>>,
)
    ensures
        ({
            let pod = pod_spec(namespace, min_id, config, tls, rust_log);
            let selector = config.spu_pod_config.node_selector.items();
            &&& pod.get("terminationGracePeriodSeconds"@) == Some(JsonTree::Int(10))
            &&& pod.get("volumes"@) == if tls is Some {
                Some(JsonTree::Array(pod_volumes(tls)))
            } else {
                None
            }
            &&& pod.get("securityContext"@) == opt_tree(config.pod_security_context)
            &&& pod.get("nodeSelector"@) == if selector.len() > 0 {
                Some(JsonTree::Object(string_members(selector)))
            } else {
                None
            }
            &&& pod.get("priorityClassName"@) == match config.spu_pod_config.priority_class_name {
                Some(name) => Some(JsonTree::Text(name@)),
                None => None,
            }
        }),
{
    broadcast use lemma_find_push, lemma_find_none;

    reveal_strlit("terminationGracePeriodSeconds");
    reveal_strlit("containers");
    reveal_strlit("volumes");
    reveal_strlit("securityContext");
    reveal_strlit("nodeSelector");
    reveal_strlit("priorityClassName");
    assert("terminationGracePeriodSeconds"@.len() == 29 && "containers"@.len() == 10
        && "volumes"@.len() == 7 && "securityContext"@.len() == 15 && "nodeSelector"@.len() == 12
        && "priorityClassName"@.len() == 17);
}

/// What is configured for the pods is found in them, each on its own, and what is not configured is
/// not: the image, the resources, the security context, the node selector, the priority class and
/// the storage class.
pub proof fn law_configuration_reaches_the_pods(
    group: Seq<char>,
    namespace: Seq<char>,
    replicas: int,
    min_id: int,
    config: ScK8Config,
    tls: Option<TlsConfig>,
    rust_log: Option<Seq<char>>,
    owner: OwnerReference,
)
    requires
        unique_keys(config.spu_pod_config.node_selector.items()),
    ensures
        ({
            let set = stateful_set(
                group,
                namespace,
                replicas,
                min_id,
                config,
                tls,
                rust_log,
                owner,
            );
            let pod = pod_of(set);
            let container = container_of(set);
            let settings = config.spu_pod_config;
            let selector = settings.node_selector.items();
            let claims = set.get("spec"@)->0.get("volumeClaimTemplates"@)->0->Array_0;
            &&& container.get("image"@) == Some(JsonTree::Text(config.image@))
            &&& container.get("resources"@) == match settings.resources {
                Some(j) => Some(j@),
                None => None,
            }
            &&& pod.get("securityContext"@) == match config.pod_security_context {
                Some(j) => Some(j@),
                None => None,
            }
            &&& pod.get("priorityClassName"@) == match settings.priority_class_name {
                Some(name) => Some(JsonTree::Text(name@)),
                None => None,
            }
            &&& pod.get("nodeSelector"@) is Some <==> selector.len() > 0
            &&& forall|i: int|
                0 <= i < selector.len() ==> pod.get("nodeSelector"@)->0.get(
                    (#[trigger] selector[i]).0,
                ) == Some(JsonTree::Text(selector[i].1@))
            &&& pod.get("containers"@)->0->Array_0.len() == 1
            &&& pod.get("terminationGracePeriodSeconds"@) == Some(JsonTree::Int(10))
            &&& claims.len() == 1
            &&& claims[0].get("metadata"@)->0.get("name"@) == Some(JsonTree::Text("data"@))
            &&& claims[0].get("spec"@)->0.get("storageClassName"@) == Some(
                match settings.storage_class {
                    Some(class) => JsonTree::Text(class@),
                    None => JsonTree::Null,
                },
            )
            &&& claims[0].get("spec"@)->0.get("accessModes"@) == Some(
                JsonTree::Array(seq![JsonTree::Text("ReadWriteOnce"@)]),
            )
            &&& claims[0].get("spec"@)->0.get("resources"@)->0.get("requests"@)->0.get("storage"@)
                == Some(JsonTree::Text("10Gi"@))
        }),
{
    broadcast use lemma_find_push, lemma_find_none;

    let set = stateful_set(group, namespace, replicas, min_id, config, tls, rust_log, owner);
    lemma_pod_and_container(group, namespace, replicas, min_id, config, tls, rust_log, owner);
    lemma_container_keys();
    lemma_pod_members(namespace, min_id, config, tls, rust_log);
    reveal_strlit("metadata");
    reveal_strlit("spec");
    reveal_strlit("accessModes");
    reveal_strlit("storageClassName");
    reveal_strlit("resources");
    assert("metadata"@.len() == 8 && "spec"@.len() == 4);
    assert("accessModes"@.len() == 11 && "storageClassName"@.len() == 16 && "resources"@.len() == 9);
    let selector = config.spu_pod_config.node_selector.items();
    assert forall|i: int| 0 <= i < selector.len() implies pod_of(set).get("nodeSelector"@)->0.get(
        (#[trigger] selector[i]).0,
    ) == Some(JsonTree::Text(selector[i].1@)) by {
        law_strings_are_read_back(selector, selector[i].0);
    }
    let claim = volume_claim(opt_text(config.spu_pod_config.storage_class));
    let claimed = claim.get("spec"@)->0;
    assert(claim.get("spec"@) is Some);
    assert(claim.get("metadata"@) is Some);
    assert(claim.get("metadata"@)->0.get("name"@) == Some(JsonTree::Text("data"@)));
    assert(claimed.get("accessModes"@) == Some(
        JsonTree::Array(no_items().push(JsonTree::Text("ReadWriteOnce"@))),
    ));
    assert(no_items().push(JsonTree::Text("ReadWriteOnce"@)) =~= seq![
        JsonTree::Text("ReadWriteOnce"@),
    ]);
    assert(claimed.get("storageClassName"@) is Some);
    let resources = claimed.get("resources"@)->0;
    assert(claimed.get("resources"@) is Some);
    assert(resources.get("requests"@) is Some);
    assert(resources.get("requests"@)->0.get("storage"@) == Some(JsonTree::Text("10Gi"@)));
}

/// A unit listens for clients, for other units and for health checks, and is checked under the port
/// for health checks.
pub proof fn law_ports_of_a_unit(
    group: Seq<char>,
    namespace: Seq<char>,
    replicas: int,
    min_id: int,
    config: ScK8Config,
    tls: Option<TlsConfig>,
    rust_log: Option<Seq<char>>,
    owner: OwnerReference,
)
    ensures
        ({
            let set = stateful_set(
                group,
                namespace,
                replicas,
                min_id,
                config,
                tls,
                rust_log,
                owner,
            );
            let container = container_of(set);
            let ports = container.get("ports"@);
            let alive = container.get("livenessProbe"@)->0;
            let ready = container.get("readinessProbe"@)->0;
            &&& container.get("name"@) == Some(JsonTree::Text("spu"@))
            &&& container.get("imagePullPolicy"@) == Some(JsonTree::Text("Always"@))
            &&& has_item(
                ports,
                "name"@,
                JsonTree::Text("public"@),
                "containerPort"@,
                JsonTree::Int(9005),
            )
            &&& has_item(
                ports,
                "name"@,
                JsonTree::Text("private"@),
                "containerPort"@,
                JsonTree::Int(9006),
            )
            &&& has_item(
                ports,
                "name"@,
                JsonTree::Text("health"@),
                "containerPort"@,
                JsonTree::Int(9008),
            )
            &&& ports->0->Array_0.len() == 3
            &&& alive.get("tcpSocket"@)->0.get("port"@) == Some(JsonTree::Int(9008))
            &&& alive.get("initialDelaySeconds"@) == Some(JsonTree::Int(5))
            &&& alive.get("periodSeconds"@) == Some(JsonTree::Int(10))
            &&& ready.get("httpGet"@)->0.get("port"@) == Some(JsonTree::Int(9008))
            &&& ready.get("httpGet"@)->0.get("path"@) == Some(JsonTree::Text("/readyz"@))
            &&& ready.get("initialDelaySeconds"@) == Some(JsonTree::Int(5))
            &&& ready.get("periodSeconds"@) == Some(JsonTree::Int(5))
        }),
{
    broadcast use lemma_find_push, lemma_find_none;

    let set = stateful_set(group, namespace, replicas, min_id, config, tls, rust_log, owner);
    lemma_pod_and_container(group, namespace, replicas, min_id, config, tls, rust_log, owner);
    lemma_container_keys();
    reveal_strlit("containerPort");
    reveal_strlit("tcpSocket");
    reveal_strlit("httpGet");
    reveal_strlit("port");
    reveal_strlit("path");
    reveal_strlit("initialDelaySeconds");
    reveal_strlit("periodSeconds");
    assert("containerPort"@.len() == 13 && "tcpSocket"@.len() == 9 && "httpGet"@.len() == 7);
    assert("port"@.len() == 4 && "path"@.len() == 4 && "port"@[1] == 'o' && "path"@[1] == 'a');
    assert("initialDelaySeconds"@.len() == 19 && "periodSeconds"@.len() == 13);
    let container = container_of(set);
    assert(container.get("name"@) == Some(JsonTree::Text("spu"@)));
    assert(container.get("imagePullPolicy"@) == Some(JsonTree::Text("Always"@)));
    assert(container.get("ports"@) is Some);
    let ports = container.get("ports"@)->0->Array_0;
    assert(ports[0] == named_port("public"@, "containerPort"@, 9005));
    assert(ports[1] == named_port("private"@, "containerPort"@, 9006));
    assert(ports[2] == named_port("health"@, "containerPort"@, 9008));
    assert(ports[0].get("name"@) == Some(JsonTree::Text("public"@)));
    assert(ports[0].get("containerPort"@) == Some(JsonTree::Int(9005)));
    assert(ports[1].get("name"@) == Some(JsonTree::Text("private"@)));
    assert(ports[1].get("containerPort"@) == Some(JsonTree::Int(9006)));
    assert(ports[2].get("name"@) == Some(JsonTree::Text("health"@)));
    assert(ports[2].get("containerPort"@) == Some(JsonTree::Int(9008)));
    assert(container.get("livenessProbe"@) == Some(liveness_probe()));
    assert(container.get("readinessProbe"@) == Some(readiness_probe()));
    assert(liveness_probe().get("tcpSocket"@) is Some);
    assert(liveness_probe().get("tcpSocket"@)->0.get("port"@) == Some(JsonTree::Int(9008)));
    assert(readiness_probe().get("httpGet"@) is Some);
    assert(readiness_probe().get("httpGet"@)->0.get("path"@) == Some(JsonTree::Text("/readyz"@)));
    assert(readiness_probe().get("httpGet"@)->0.get("port"@) == Some(JsonTree::Int(9008)));
}

/// The headless service of a group has no address of its own, stands under the name that the stateful
/// set names, selects the pods of the group and shows both of their ports.
pub proof fn law_headless_service_shows_the_pods(
    group: Seq<char>,
    namespace: Seq<char>,
    owner: OwnerReference,
)
    ensures
        ({
            let service = headless_service(group, namespace, owner);
            let metadata = service.get("metadata"@)->0;
            let spec = service.get("spec"@)->0;
            let selector = spec.get("selector"@)->0;
            &&& service.get("apiVersion"@) == Some(JsonTree::Text("v1"@))
            &&& service.get("kind"@) == Some(JsonTree::Text("Service"@))
            &&& metadata.get("name"@) == Some(JsonTree::Text("fluvio-spg-"@ + group))
            &&& metadata.get("namespace"@) == Some(JsonTree::Text(namespace))
            &&& metadata.get("ownerReferences"@) == Some(
                JsonTree::Array(seq![owner.document()]),
            )
            &&& spec.get("clusterIP"@) == Some(JsonTree::Text("None"@))
            &&& selector.get("app"@) == Some(JsonTree::Text("spu"@))
            &&& selector.get("group"@) == Some(JsonTree::Text(group))
            &&& has_item(
                spec.get("ports"@),
                "name"@,
                JsonTree::Text("public"@),
                "port"@,
                JsonTree::Int(9005),
            )
            &&& has_item(
                spec.get("ports"@),
                "name"@,
                JsonTree::Text("private"@),
                "port"@,
                JsonTree::Int(9006),
            )
        }),
{
    broadcast use lemma_find_push, lemma_find_none;

    reveal_strlit("apiVersion");
    reveal_strlit("kind");
    reveal_strlit("metadata");
    reveal_strlit("spec");
    reveal_strlit("name");
    reveal_strlit("namespace");
    reveal_strlit("ownerReferences");
    reveal_strlit("clusterIP");
    reveal_strlit("selector");
    reveal_strlit("ports");
    reveal_strlit("port");
    reveal_strlit("app");
    reveal_strlit("group");
    assert("kind"@[0] == 'k' && "spec"@[0] == 's' && "kind"@.len() == 4 && "spec"@.len() == 4);
    assert("apiVersion"@.len() == 10 && "metadata"@.len() == 8);
    assert("name"@.len() == 4 && "namespace"@.len() == 9 && "ownerReferences"@.len() == 15);
    assert("clusterIP"@.len() == 9 && "selector"@.len() == 8 && "ports"@.len() == 5);
    assert("app"@.len() == 3 && "group"@.len() == 5 && "port"@.len() == 4);
    assert("name"@[0] == 'n' && "port"@[0] == 'p');
    let service = headless_service(group, namespace, owner);
    let metadata = owned_metadata("fluvio-spg-"@ + group, namespace, owner);
    assert(service.get("metadata"@) == Some(metadata));
    assert(metadata.get("name"@) == Some(JsonTree::Text("fluvio-spg-"@ + group)));
    assert(metadata.get("namespace"@) == Some(JsonTree::Text(namespace)));
    assert(metadata.get("ownerReferences"@) == Some(
        JsonTree::Array(no_items().push(owner.document())),
    ));
    assert(no_items().push(owner.document()) =~= seq![owner.document()]);
    let spec = service.get("spec"@)->0;
    assert(service.get("spec"@) is Some);
    assert(spec.get("clusterIP"@) == Some(JsonTree::Text("None"@)));
    assert(spec.get("selector"@) == Some(pod_labels(group)));
    assert(pod_labels(group).get("app"@) == Some(JsonTree::Text("spu"@)));
    assert(pod_labels(group).get("group"@) == Some(JsonTree::Text(group)));
    assert(spec.get("ports"@) is Some);
    let ports = spec.get("ports"@)->0->Array_0;
    assert(ports[0] == named_port("public"@, "port"@, 9005));
    assert(ports[1] == named_port("private"@, "port"@, 9006));
    assert(ports[0].get("name"@) == Some(JsonTree::Text("public"@)));
    assert(ports[0].get("port"@) == Some(JsonTree::Int(9005)));
    assert(ports[1].get("name"@) == Some(JsonTree::Text("private"@)));
    assert(ports[1].get("port"@) == Some(JsonTree::Int(9006)));
}

} // verus!
