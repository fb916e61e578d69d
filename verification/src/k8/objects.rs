//! The parts of Kubernetes objects, and of the configuration, that the controllers work on.
use vstd::prelude::*;

use crate::json::{no_members, Json, JsonTree, Members};
use crate::string_map::StringMap;

verus! {

pub const SPG_GROUP: &'static str = "fluvio.infinyon.com";

pub const SPG_VERSION: &'static str = "v1";

pub const SPG_KIND: &'static str = "SpuGroup";

pub const SPU_KIND: &'static str = "Spu";

/// The group and version of the custom resources.
pub open spec fn api_version() -> Seq<char> {
    SPG_GROUP@ + "/"@ + SPG_VERSION@
}

/// The group and version of the custom resources.
pub fn group_version() -> (s: String)
    ensures
        s@ == api_version(),
{
    SPG_GROUP.to_owned().concat("/").concat(SPG_VERSION)
}

/// The label that carries the name of the unit a service belongs to.
pub const SPU_NAME_LABEL: &'static str = "fluvio.io/spu-name";

/// The manager under which objects are applied.
pub const FIELD_MANAGER: &'static str = "fluvio-sc";

pub const PRODUCT_NAME: &'static str = "fluvio";

pub const SPU_DEFAULT_NAME: &'static str = "spu";

pub const SPU_PUBLIC_PORT: u16 = 9005;

pub const SPU_PRIVATE_PORT: u16 = 9006;

pub const SC_PRIVATE_PORT: u16 = 9004;

pub const TLS_SERVER_SECRET_NAME: &'static str = "fluvio-tls";

/// A reference to the object that owns another one.
#[derive(Debug)]
pub struct OwnerReference {
    pub api_version: String,
    pub kind: String,
    pub name: String,
    pub uid: String,
    pub controller: Option<bool>,
    pub block_owner_deletion: Option<bool>,
}

/// The members with `value` under `key` behind them, where there is one.
pub open spec fn with_flag(
    members: Seq<(Seq<char>, JsonTree)>,
    key: Seq<char>,
    value: Option<bool>,
) -> Seq<(Seq<char>, JsonTree)> {
    match value {
        Some(b) => members.push((key, JsonTree::Bool(b))),
        None => members,
    }
}

impl OwnerReference {
    /// The reference as a document. Flags that are not set are left out.
    pub open spec fn document(self) -> JsonTree {
        JsonTree::Object(
            with_flag(
                with_flag(
                    no_members().push(("apiVersion"@, JsonTree::Text(self.api_version@))).push(
                        ("kind"@, JsonTree::Text(self.kind@)),
                    ).push(("name"@, JsonTree::Text(self.name@))).push(
                        ("uid"@, JsonTree::Text(self.uid@)),
                    ),
                    "controller"@,
                    self.controller,
                ),
                "blockOwnerDeletion"@,
                self.block_owner_deletion,
            ),
        )
    }

    pub fn to_json(&self) -> (j: Json)
        ensures
            j@ == self.document(),
    {
        let mut m = Members::new().with("apiVersion", Json::text(self.api_version.as_str())).with(
            "kind",
            Json::text(self.kind.as_str()),
        ).with("name", Json::text(self.name.as_str())).with("uid", Json::text(self.uid.as_str()));
        if let Some(b) = self.controller {
            m = m.with("controller", Json::boolean(b));
        }
        if let Some(b) = self.block_owner_deletion {
            m = m.with("blockOwnerDeletion", Json::boolean(b));
        }
        m.into_object()
    }

    /// A copy.
    pub fn copy(&self) -> (r: OwnerReference)
        ensures
            r.same(*self),
    {
        OwnerReference {
            api_version: self.api_version.clone(),
            kind: self.kind.clone(),
            name: self.name.clone(),
            uid: self.uid.clone(),
            controller: self.controller,
            block_owner_deletion: self.block_owner_deletion,
        }
    }

    pub open spec fn same(self, other: OwnerReference) -> bool {
        &&& self.api_version@ == other.api_version@
        &&& self.kind@ == other.kind@
        &&& self.name@ == other.name@
        &&& self.uid@ == other.uid@
        &&& self.controller == other.controller
        &&& self.block_owner_deletion == other.block_owner_deletion
    }

    /// The reference with which a group owns the objects made for it.
    pub open spec fn is_group(self, name: Seq<char>, uid: Seq<char>) -> bool {
        &&& self.api_version@ == api_version()
        &&& self.kind@ == SPG_KIND@
        &&& self.name@ == name
        &&& self.uid@ == uid
        &&& self.controller == Some(true)
        &&& self.block_owner_deletion == Some(true)
    }

    pub fn group(name: &str, uid: &str) -> (r: OwnerReference)
        ensures
            r.is_group(name@, uid@),
    {
        OwnerReference {
            api_version: group_version(),
            kind: SPG_KIND.to_owned(),
            name: name.to_owned(),
            uid: uid.to_owned(),
            controller: Some(true),
            block_owner_deletion: Some(true),
        }
    }
}

/// How connections are secured.
#[derive(Debug)]
pub struct TlsConfig {
    pub enable_client_cert: bool,
    pub ca_cert: Option<String>,
    pub server_cert: Option<String>,
    pub server_key: Option<String>,
    pub secret_name: Option<String>,
}

/// How a service is reached.
#[derive(Debug, Clone, Copy, PartialEq, Eq, Structural)]
pub enum LoadBalancerType {
    ClusterIP,
    NodePort,
    LoadBalancer,
    ExternalName,
}

/// Where traffic from outside the cluster may be sent.
#[derive(Debug, Clone, Copy, PartialEq, Eq, Structural)]
pub enum ExternalTrafficPolicy {
    Local,
    Cluster,
}

/// What is configured for the services of the units.
#[derive(Debug)]
pub struct ServiceTemplate {
    pub service_type: Option<LoadBalancerType>,
    pub external_traffic_policy: Option<ExternalTrafficPolicy>,
}

/// What is configured for the pods of the units.
#[derive(Debug)]
pub struct SpuPodConfig {
    pub node_selector: StringMap<String>,
    pub resources: Option<Json>,
    pub storage_class: Option<String>,
    pub base_node_port: Option<u16>,
    pub priority_class_name: Option<String>,
}

/// What is configured for the units.
#[derive(Debug)]
pub struct ScK8Config {
    pub image: String,
    pub pod_security_context: Option<Json>,
    pub lb_service_annotations: StringMap<String>,
    pub service: Option<ServiceTemplate>,
    pub spu_pod_config: SpuPodConfig,
}

impl Default for ScK8Config {
    fn default() -> (c: ScK8Config)
        ensures
            c.image@ == Seq::<char>::empty(),
            c.pod_security_context is None,
            c.lb_service_annotations.items() == Seq::<(Seq<char>, String)>::empty(),
            c.service is None,
            c.spu_pod_config.node_selector.items() == Seq::<(Seq<char>, String)>::empty(),
            c.spu_pod_config.resources is None,
            c.spu_pod_config.storage_class is None,
            c.spu_pod_config.base_node_port is None,
            c.spu_pod_config.priority_class_name is None,
    {
        ScK8Config {
            image: String::new(),
            pod_security_context: None,
            lb_service_annotations: StringMap::new(),
            service: None,
            spu_pod_config: SpuPodConfig {
                node_selector: StringMap::new(),
                resources: None,
                storage_class: None,
                base_node_port: None,
                priority_class_name: None,
            },
        }
    }
}

} // verus!
