//! Kinds of objects that Kubernetes itself defines.
use vstd::prelude::*;

use crate::json::{Json, JsonTree};
use crate::string_map::{copy_strings, text_items, StringMap};
use crate::text::{copy_opt_text, opt_text};

verus! {

/// The names of a kind of objects.
#[derive(Debug, Clone, Copy)]
pub struct CrdNames {
    pub kind: &'static str,
    pub plural: &'static str,
    pub singular: &'static str,
}

/// A kind of objects: its group, its version and its names.
#[derive(Debug, Clone, Copy)]
pub struct Crd {
    pub group: &'static str,
    pub version: &'static str,
    pub names: CrdNames,
}

impl Crd {
    /// Whether this is the kind with the given group, version and names.
    pub open spec fn is(
        self,
        group: Seq<char>,
        version: Seq<char>,
        kind: Seq<char>,
        plural: Seq<char>,
        singular: Seq<char>,
    ) -> bool {
        &&& self.group@ == group
        &&& self.version@ == version
        &&& self.names.kind@ == kind
        &&& self.names.plural@ == plural
        &&& self.names.singular@ == singular
    }
}

/// Which objects a controller counts as its own.
#[derive(Debug)]
pub struct LabelSelector {
    pub match_labels: StringMap<String>,
}

/// What is made for each replica or volume: labels, a name, and what it is to be.
#[derive(Debug)]
pub struct TemplateSpec<S> {
    pub name: Option<String>,
    pub labels: StringMap<String>,
    pub spec: S,
}

/// A pod, as a document.
#[derive(Debug)]
pub struct PodSpec {
    pub document: Json,
}

/// In which order pods are made and deleted.
#[derive(Debug, Clone, Copy, PartialEq, Eq, Structural)]
pub enum PodMangementPolicy {
    OrderedReady,
    Parallel,
}

/// How volumes can be mounted.
#[derive(Debug, Clone, Copy, PartialEq, Eq, Structural)]
pub enum VolumeAccessMode {
    ReadWriteOnce,
    ReadWrite,
    ReadOnlyMany,
}

/// How much storage is asked for.
#[derive(Debug, PartialEq, Eq)]
pub struct VolumeRequest {
    pub storage: String,
}

/// What is asked for.
#[derive(Debug, PartialEq, Eq)]
pub struct ResourceRequirements {
    pub requests: VolumeRequest,
}

/// A claim on a volume.
#[derive(Debug, PartialEq, Eq)]
pub struct PersistentVolumeClaim {
    pub access_modes: Vec<VolumeAccessMode>,
    pub storage_class_name: Option<String>,
    pub resources: ResourceRequirements,
}

/// Which pods take part in a rolling update.
#[derive(Debug, Default, Clone, Copy, PartialEq, Eq, Structural)]
pub struct RollingUpdateStatefulSetStrategy {
    pub partition: u32,
}

/// How pods are updated.
#[derive(Debug, Default, PartialEq, Eq)]
pub struct StatefulSetUpdateStrategy {
    pub _type: String,
    pub rolling_ipdate: Option<RollingUpdateStatefulSetStrategy>,
}

/// A stateful set.
#[derive(Debug)]
pub struct StatefulSetSpec {
    pub pod_management_policy: Option<PodMangementPolicy>,
    pub replicas: Option<u16>,
    pub revision_history_limit: Option<u16>,
    pub selector: LabelSelector,
    pub service_name: String,
    pub template: TemplateSpec<PodSpec>,
    pub volume_claim_templates: Vec<TemplateSpec<PersistentVolumeClaim>>,
    pub update_strategy: Option<StatefulSetUpdateStrategy>,
}

/// Whether something is so.
#[derive(Debug, Clone, Copy, PartialEq, Eq, Structural)]
pub enum StatusEnum {
    True,
    False,
    Unknown,
}

/// What is known of a stateful set at some time.
#[derive(Debug, PartialEq, Eq)]
pub struct StatefulSetCondition {
    pub message: String,
    pub reason: StatusEnum,
    pub status: String,
    pub _type: String,
}

/// The state of a stateful set.
#[derive(Debug, Default, PartialEq, Eq)]
pub struct StatefulSetStatus {
    pub replicas: u16,
    pub collision_count: Option<u32>,
    pub conditions: Vec<StatefulSetCondition>,
    pub current_replicas: Option<u16>,
    pub current_revision: Option<String>,
    pub observed_generation: Option<u32>,
    pub ready_replicas: Option<u16>,
    pub update_revision: Option<String>,
    pub updated_replicas: Option<u16>,
}

/// A claim as texts.
pub struct ClaimModel {
    pub access_modes: Seq<VolumeAccessMode>,
    pub storage_class_name: Option<Seq<char>>,
    pub storage: Seq<char>,
}

/// A template of a claim as texts.
pub struct ClaimTemplateModel {
    pub name: Option<Seq<char>>,
    pub labels: Seq<(Seq<char>, Seq<char>)>,
    pub claim: ClaimModel,
}

impl View for PersistentVolumeClaim {
    type V = ClaimModel;

    open spec fn view(&self) -> ClaimModel {
        ClaimModel {
            access_modes: self.access_modes@,
            storage_class_name: opt_text(self.storage_class_name),
            storage: self.resources.requests.storage@,
        }
    }
}

impl Clone for PersistentVolumeClaim {
    fn clone(&self) -> (r: PersistentVolumeClaim)
        ensures
            r@ == self@,
    {
        let mut access_modes: Vec<VolumeAccessMode> = Vec::new();
        let mut i: usize = 0;
        while i < self.access_modes.len()
            invariant
                i <= self.access_modes@.len(),
                access_modes@ == self.access_modes@.take(i as int),
            decreases self.access_modes.len() - i,
        {
            access_modes.push(self.access_modes[i]);
            i += 1;
            assert(access_modes@ =~= self.access_modes@.take(i as int));
        }
        assert(access_modes@ =~= self.access_modes@);
        PersistentVolumeClaim {
            access_modes,
            storage_class_name: copy_opt_text(&self.storage_class_name),
            resources: ResourceRequirements {
                requests: VolumeRequest { storage: self.resources.requests.storage.clone() },
            },
        }
    }
}

/// A template of a claim as texts.
pub open spec fn claim_template(t: TemplateSpec<PersistentVolumeClaim>) -> ClaimTemplateModel {
    ClaimTemplateModel { name: opt_text(t.name), labels: text_items(t.labels.items()), claim: t.spec@ }
}

/// Templates of claims as texts.
pub open spec fn claim_templates(list: Seq<TemplateSpec<PersistentVolumeClaim>>) -> Seq<
    ClaimTemplateModel,
> {
    list.map_values(|t: TemplateSpec<PersistentVolumeClaim>| claim_template(t))
}

fn copy_claims(list: &Vec<TemplateSpec<PersistentVolumeClaim>>) -> (r: Vec<
    TemplateSpec<PersistentVolumeClaim>,
>)
    ensures
        claim_templates(r@) == claim_templates(list@),
{
    let mut r: Vec<TemplateSpec<PersistentVolumeClaim>> = Vec::new();
    let mut i: usize = 0;
    let ghost all = claim_templates(list@);
    assert(claim_templates(r@) =~= all.take(0));
    while i < list.len()
        invariant
            i <= list@.len(),
            all == claim_templates(list@),
            claim_templates(r@) == all.take(i as int),
        decreases list.len() - i,
    {
        let ghost before = claim_templates(r@);
        let copy = TemplateSpec {
            name: copy_opt_text(&list[i].name),
            labels: copy_strings(&list[i].labels),
            spec: list[i].spec.clone(),
        };
        assert(claim_template(copy) == all[i as int]);
        r.push(copy);
        assert(claim_templates(r@) =~= before.push(all[i as int]));
        i += 1;
        assert(claim_templates(r@) =~= all.take(i as int));
    }
    assert(all.take(i as int) =~= all);
    r
}

impl StatefulSetSpec {
    pub fn metadata() -> (c: Crd)
        ensures
            c.is("apps"@, "v1"@, "StatefulSet"@, "statefulsets"@, "statefulset"@),
    {
        Crd {
            group: "apps",
            version: "v1",
            names: CrdNames {
                kind: "StatefulSet",
                plural: "statefulsets",
                singular: "statefulset",
            },
        }
    }

    /// Takes over what a stateful set cannot change once it exists: the templates of the volumes.
    pub fn make_same(&mut self, other: &StatefulSetSpec)
        ensures
            claim_templates(final(self).volume_claim_templates@) == claim_templates(
                other.volume_claim_templates@,
            ),
            *final(self) == (StatefulSetSpec {
                volume_claim_templates: final(self).volume_claim_templates,
                ..*old(self)
            }),
    {
        self.volume_claim_templates = copy_claims(&other.volume_claim_templates);
    }
}

impl Default for StatefulSetSpec {
    fn default() -> (s: StatefulSetSpec)
        ensures
            s.pod_management_policy is None,
            s.replicas is None,
            s.revision_history_limit is None,
            s.selector.match_labels.items().len() == 0,
            s.service_name@ == Seq::<char>::empty(),
            s.template.name is None,
            s.template.labels.items().len() == 0,
            s.template.spec.document@ == JsonTree::Null,
            s.volume_claim_templates@.len() == 0,
            s.update_strategy is None,
    {
        StatefulSetSpec {
            pod_management_policy: None,
            replicas: None,
            revision_history_limit: None,
            selector: LabelSelector { match_labels: StringMap::new() },
            service_name: String::new(),
            template: TemplateSpec {
                name: None,
                labels: StringMap::new(),
                spec: PodSpec { document: Json::null() },
            },
            volume_claim_templates: Vec::new(),
            update_strategy: None,
        }
    }
}

/// A machine of the cluster.
#[derive(Debug, Default, PartialEq, Eq)]
pub struct NodeSpec {
    pub provider_id: String,
}

/// An address of a machine, and what kind of address it is.
#[derive(Debug, Default, PartialEq, Eq)]
pub struct NodeAddress {
    pub address: String,
    pub address_type: String,
}

/// The state of a machine.
#[derive(Debug, Default, PartialEq, Eq)]
pub struct NodeStatus {
    pub addresses: Vec<NodeAddress>,
}

/// A list of machines.
#[derive(Debug, Default, Clone, Copy, PartialEq, Eq)]
pub struct NodeList {}

impl NodeSpec {
    /// Machines are of no namespace.
    pub const NAME_SPACED: bool = false;

    pub fn metadata() -> (c: Crd)
        ensures
            c.is("core"@, "v1"@, "Node"@, "nodes"@, "node"@),
    {
        Crd {
            group: "core",
            version: "v1",
            names: CrdNames { kind: "Node", plural: "nodes", singular: "node" },
        }
    }
}

/// A request for credentials.
#[derive(Debug, Default, Clone, Copy)]
pub struct ExecCredentialSpec {}

/// Credentials, and until when they hold.
#[derive(Debug, Default)]
pub struct ExecCredentialStatus {
    pub expiration_timestamp: String,
    pub token: String,
}

impl ExecCredentialSpec {
    pub fn metadata() -> (c: Crd)
        ensures
            c.is(
                "client.authentication.k8s.io"@,
                "v1"@,
                "ExecCrendetial"@,
                "credentials"@,
                "credential"@,
            ),
    {
        Crd {
            group: "client.authentication.k8s.io",
            version: "v1",
            names: CrdNames {
                kind: "ExecCrendetial",
                plural: "credentials",
                singular: "credential",
            },
        }
    }
}

/// An account under which pods run.
#[derive(Debug, Default, Clone, Copy)]
pub struct ServiceAccountSpec {}

/// The state of an account.
#[derive(Debug, Default, Clone, Copy, PartialEq, Eq)]
pub struct ServiceAccountStatus {}

impl ServiceAccountSpec {
    pub fn metadata() -> (c: Crd)
        ensures
            c.is("core"@, "v1"@, "ServiceAccount"@, "serviceaccounts"@, "serviceaccount"@),
    {
        Crd {
            group: "core",
            version: "v1",
            names: CrdNames {
                kind: "ServiceAccount",
                plural: "serviceaccounts",
                singular: "serviceaccount",
            },
        }
    }
}

/// A kind is known by its group, its version and its three names.
pub proof fn law_kind_is_known_by_its_names(
    c: Crd,
    group: Seq<char>,
    version: Seq<char>,
    kind: Seq<char>,
    plural: Seq<char>,
    singular: Seq<char>,
)
    requires
        c.is(group, version, kind, plural, singular),
    ensures
        c.group@ == group && c.version@ == version,
        c.names.kind@ == kind && c.names.plural@ == plural && c.names.singular@ == singular,
{
}

/// Two lists of templates for volumes that read the same have the same names, labels and claims, one by
/// one.
pub proof fn law_same_templates_claim_the_same(
    a: Seq<TemplateSpec<PersistentVolumeClaim>>,
    b: Seq<TemplateSpec<PersistentVolumeClaim>>,
    i: int,
)
    requires
        claim_templates(a) == claim_templates(b),
        0 <= i < a.len(),
    ensures
        a.len() == b.len(),
        opt_text(a[i].name) == opt_text(b[i].name),
        text_items(a[i].labels.items()) == text_items(b[i].labels.items()),
        a[i].spec.access_modes@ == b[i].spec.access_modes@,
        opt_text(a[i].spec.storage_class_name) == opt_text(b[i].spec.storage_class_name),
        a[i].spec.resources.requests.storage@ == b[i].spec.resources.requests.storage@,
{
    assert(claim_templates(a).len() == a.len() && claim_templates(b).len() == b.len());
    assert(claim_templates(a)[i] == claim_template(a[i]));
    assert(claim_templates(b)[i] == claim_template(b[i]));
}

} // verus!
