//! The reconciliation of a group with the services of its units.
use vstd::prelude::*;

use crate::decimal::{digits, law_read_back};
use crate::k8::group::{
    beyond_scale, copy_or, index_after, is_beyond_scale, read_replicas, text_or, wanted_replicas,
    KubeObject,
};
use crate::k8::objects::ScK8Config;
use crate::k8::service::Service;
use crate::k8::set_controller::{DONE_DELAY, NO_SPEC_DELAY, RETRY_DELAY};
use crate::k8::spu_service::{
    build_spu_service, group_unit_name, is_spu_service, node_port_fits, service_name_of,
    spu_service_name, unit_name,
};
use crate::string_map::StringMap;
use crate::text::{has_prefix, texts};

verus! {

/// The code with which the cluster refuses a change to a field that cannot be changed.
pub const IMMUTABLE_FIELD: u16 = 422;

/// The code with which the cluster says that there is no such object.
pub const NOT_FOUND: u16 = 404;

/// The reply of the cluster to the question for the configuration of the units.
#[derive(Debug)]
pub enum ConfigReply {
    /// The entries of the configuration; there may be none.
    Found(Option<StringMap<String>>),
    /// The cluster refused, with a code.
    Refused(u16),
    /// The cluster did not reply.
    Failed,
}

/// Where the configuration of the units comes from.
#[derive(Debug)]
pub enum ConfigSource {
    /// From these entries.
    Entries(StringMap<String>),
    /// There is none: the default one is used.
    Defaults,
    /// It cannot be had.
    Unavailable,
}

/// Decides where the configuration comes from. A configuration that is not there is replaced by the
/// default one; any other refusal is a failure.
pub fn load_spu_k8_config(reply: ConfigReply) -> (source: ConfigSource)
    ensures
        (match reply {
            ConfigReply::Found(Some(entries)) => source == ConfigSource::Entries(entries),
            ConfigReply::Found(None) => source matches ConfigSource::Entries(entries)
                && entries.items().len() == 0,
            ConfigReply::Refused(code) => source == (if code == NOT_FOUND {
                ConfigSource::Defaults
            } else {
                ConfigSource::Unavailable
            }),
            ConfigReply::Failed => source is Unavailable,
        }),
{
    match reply {
        ConfigReply::Found(Some(entries)) => ConfigSource::Entries(entries),
        ConfigReply::Found(None) => ConfigSource::Entries(StringMap::new()),
        ConfigReply::Refused(code) => if code == NOT_FOUND {
            ConfigSource::Defaults
        } else {
            ConfigSource::Unavailable
        },
        ConfigReply::Failed => ConfigSource::Unavailable,
    }
}

/// Where the reconciliation stands.
#[derive(Debug, Clone, Copy, PartialEq, Eq, Structural)]
pub enum ServiceStage {
    /// The service of a unit is being applied.
    Applying,
    /// The service of a unit is being deleted, to be made anew.
    Deleting,
    /// The service of a unit is being applied anew.
    Reapplying,
    /// The services of the cluster are awaited.
    Listing,
    /// Services that are no longer wanted are being deleted.
    Cleaning,
    /// Nothing is left to do.
    Done,
}

/// What the reconciliation asks for.
#[derive(Debug)]
pub enum ServiceAction {
    /// Apply a service.
    Apply { name: String, service: Service },
    /// Delete a service; whether that works does not matter.
    Delete { name: String },
    /// List the services that carry the name of a unit.
    List,
    /// Delete some services; whether that works does not matter.
    DeleteAll { names: Vec<String> },
    /// Look at the group again after some seconds.
    Requeue { seconds: u64 },
    /// Give up, with the error at hand.
    Fail,
}

/// The reply of the cluster to an object that was applied.
#[derive(Debug, Clone, Copy, PartialEq, Eq, Structural)]
pub enum ApplyReply {
    Applied,
    /// The cluster refused, with a code.
    Refused(u16),
    /// The cluster did not reply.
    Failed,
}

/// The reconciliation of the services of one group.
#[derive(Debug)]
pub struct ServiceRun {
    pub name: String,
    pub namespace: String,
    pub uid: String,
    pub replicas: u16,
    pub config: ScK8Config,
    /// The unit whose service is at hand.
    pub index: u16,
    pub stage: ServiceStage,
}

/// The prefix of the names of the services of a group.
pub open spec fn service_prefix(group: Seq<char>) -> Seq<char> {
    "fluvio-spu-"@ + group + "-"@
}

/// The services that are no longer wanted when a group has `replicas` units.
pub open spec fn orphaned_services(
    names: Seq<Seq<char>>,
    group: Seq<char>,
    replicas: u16,
) -> Seq<Seq<char>> {
    names.filter(|name: Seq<char>| beyond_scale(name, service_prefix(group), replicas))
}

/// What the group called `group` asks for, and where.
#[derive(Debug)]
pub struct GroupPlan {
    pub name: String,
    pub namespace: String,
    pub uid: String,
    pub replicas: u16,
}

/// What a group asks for. One without a specification is looked at again after some seconds.
pub fn plan_units(spg: &KubeObject, default_namespace: &str) -> (r: Result<GroupPlan, u64>)
    ensures
        (match r {
            Ok(plan) => {
                &&& spg.data@.get("spec"@) matches Some(spec)
                &&& plan.name@ == spg.name@
                &&& plan.namespace@ == text_or(spg.namespace, default_namespace@)
                &&& plan.uid@ == text_or(spg.uid, Seq::empty())
                &&& plan.replicas == wanted_replicas(spec) as u16
            },
            Err(seconds) => spg.data@.get("spec"@) is None && seconds == NO_SPEC_DELAY,
        }),
{
    match spg.data.get("spec") {
        Some(spec) => {
            #[verifier::truncate]
            let replicas: u16 = read_replicas(spec) as u16;
            let none = String::new();
            assert(none@ =~= Seq::empty());
            Ok(
                GroupPlan {
                    name: spg.name.clone(),
                    namespace: copy_or(&spg.namespace, default_namespace),
                    uid: copy_or(&spg.uid, none.as_str()),
                    replicas,
                },
            )
        },
        None => Err(NO_SPEC_DELAY),
    }
}

impl ServiceRun {
    pub open spec fn same_group(self, other: ServiceRun) -> bool {
        &&& self.name@ == other.name@
        &&& self.namespace@ == other.namespace@
        &&& self.uid@ == other.uid@
        &&& self.replicas == other.replicas
        &&& self.config == other.config
    }

    /// Every unit's node port fits its 16 bits.
    pub open spec fn ports_fit(self) -> bool {
        forall|i: nat| i < self.replicas ==> #[trigger] node_port_fits(self.config, i)
    }

    pub open spec fn wf(self) -> bool {
        &&& self.ports_fit()
        &&& self.stage == ServiceStage::Applying || self.stage == ServiceStage::Deleting
            || self.stage == ServiceStage::Reapplying ==> self.index < self.replicas
    }

    /// The action applies the service of the unit at hand.
    pub open spec fn applies(self, action: ServiceAction) -> bool {
        &&& action matches ServiceAction::Apply { name, service }
        &&& name@ == spu_service_name(unit_name(self.name@, self.index as nat))
        &&& is_spu_service(
            service,
            self.index as nat,
            unit_name(self.name@, self.index as nat),
            self.name@,
            self.uid@,
            self.config,
            self.namespace@,
        )
    }

    /// The run stands before the service of the unit `index`, or before the list of all services
    /// where there is no such unit.
    pub open spec fn stands_before(self, index: int, action: ServiceAction) -> bool {
        if index < self.replicas {
            self.stage == ServiceStage::Applying && self.index == index && self.applies(action)
        } else {
            self.stage == ServiceStage::Listing && action is List
        }
    }

    fn apply_current(&self) -> (action: ServiceAction)
        requires
            self.ports_fit(),
            self.index < self.replicas,
        ensures
            self.applies(action),
    {
        let spu_name = group_unit_name(self.name.as_str(), self.index);
        assert(node_port_fits(self.config, self.index as nat));
        let service = build_spu_service(
            self.index,
            spu_name.as_str(),
            self.name.as_str(),
            self.uid.as_str(),
            &self.config,
            self.namespace.as_str(),
        );
        ServiceAction::Apply { name: service_name_of(spu_name.as_str()), service }
    }

    /// Starts on the services of a group. Without a configuration the group is looked at again
    /// after some seconds.
    pub fn start(plan: GroupPlan, config: Option<ScK8Config>) -> (r: Result<
        (ServiceRun, ServiceAction),
        u64,
    >)
        requires
            config matches Some(c) ==> forall|i: nat|
                i < plan.replicas ==> #[trigger] node_port_fits(c, i),
        ensures
            (match r {
                Ok((run, action)) => {
                    &&& config == Some(run.config)
                    &&& run.wf()
                    &&& run.name@ == plan.name@
                    &&& run.namespace@ == plan.namespace@
                    &&& run.uid@ == plan.uid@
                    &&& run.replicas == plan.replicas
                    &&& run.stands_before(0, action)
                },
                Err(seconds) => config is None && seconds == RETRY_DELAY,
            }),
    {
        let config = match config {
            Some(c) => c,
            None => {
                return Err(RETRY_DELAY);
            },
        };
        let mut run = ServiceRun {
            name: plan.name,
            namespace: plan.namespace,
            uid: plan.uid,
            replicas: plan.replicas,
            config,
            index: 0,
            stage: ServiceStage::Listing,
        };
        if run.replicas > 0 {
            run.stage = ServiceStage::Applying;
            let action = run.apply_current();
            Ok((run, action))
        } else {
            Ok((run, ServiceAction::List))
        }
    }

    /// Takes the reply to a service that was applied. A service that cannot be changed is deleted
    /// and made anew, once; any other refusal ends the run.
    pub fn applied(&mut self, reply: ApplyReply) -> (action: ServiceAction)
        requires
            old(self).wf(),
            old(self).stage == ServiceStage::Applying || old(self).stage
                == ServiceStage::Reapplying,
        ensures
            final(self).wf(),
            final(self).same_group(*old(self)),
            reply == ApplyReply::Applied ==> final(self).stands_before(old(self).index + 1, action),
            reply == ApplyReply::Refused(IMMUTABLE_FIELD) && old(self).stage
                == ServiceStage::Applying ==> {
                &&& final(self).stage == ServiceStage::Deleting
                &&& final(self).index == old(self).index
                &&& action matches ServiceAction::Delete { name }
                &&& name@ == spu_service_name(unit_name(old(self).name@, old(self).index as nat))
            },
            reply != ApplyReply::Applied && !(reply == ApplyReply::Refused(IMMUTABLE_FIELD) && old(
                self,
            ).stage == ServiceStage::Applying) ==> final(self).stage == ServiceStage::Done
                && action is Fail,
    {
        match reply {
            ApplyReply::Applied => {
                if self.index + 1 < self.replicas {
                    self.index = self.index + 1;
                    self.stage = ServiceStage::Applying;
                    self.apply_current()
                } else {
                    self.stage = ServiceStage::Listing;
                    ServiceAction::List
                }
            },
            ApplyReply::Refused(code) => {
                if code == IMMUTABLE_FIELD && self.stage == ServiceStage::Applying {
                    self.stage = ServiceStage::Deleting;
                    let spu_name = group_unit_name(self.name.as_str(), self.index);
                    ServiceAction::Delete { name: service_name_of(spu_name.as_str()) }
                } else {
                    self.stage = ServiceStage::Done;
                    ServiceAction::Fail
                }
            },
            ApplyReply::Failed => {
                self.stage = ServiceStage::Done;
                ServiceAction::Fail
            },
        }
    }

    /// Goes on after a service was deleted: it is applied anew.
    pub fn deleted(&mut self) -> (action: ServiceAction)
        requires
            old(self).wf(),
            old(self).stage == ServiceStage::Deleting,
        ensures
            final(self).wf(),
            final(self).same_group(*old(self)),
            final(self).index == old(self).index,
            final(self).stage == ServiceStage::Reapplying,
            final(self).applies(action),
    {
        self.stage = ServiceStage::Reapplying;
        self.apply_current()
    }

    /// Takes the names of the services that carry the name of a unit.
    pub fn listed(&mut self, names: &Vec<String>) -> (action: ServiceAction)
        requires
            old(self).wf(),
            old(self).stage == ServiceStage::Listing,
        ensures
            final(self).wf(),
            final(self).same_group(*old(self)),
            final(self).stage == ServiceStage::Cleaning,
            action matches ServiceAction::DeleteAll { names: gone } && texts(gone@)
                == orphaned_services(texts(names@), old(self).name@, old(self).replicas),
    {
        let prefix = "fluvio-spu-".to_owned().concat(self.name.as_str()).concat("-");
        let gone = names_beyond_scale(names, prefix.as_str(), self.replicas);
        self.stage = ServiceStage::Cleaning;
        ServiceAction::DeleteAll { names: gone }
    }

    /// Ends the run after the unwanted services were deleted.
    pub fn cleaned(&mut self) -> (action: ServiceAction)
        requires
            old(self).wf(),
            old(self).stage == ServiceStage::Cleaning,
        ensures
            final(self).wf(),
            final(self).same_group(*old(self)),
            final(self).stage == ServiceStage::Done,
            action == (ServiceAction::Requeue { seconds: DONE_DELAY }),
    {
        self.stage = ServiceStage::Done;
        ServiceAction::Requeue { seconds: DONE_DELAY }
    }
}

/// The names that carry the prefix and an index from `replicas` on.
pub fn names_beyond_scale(names: &Vec<String>, prefix: &str, replicas: u16) -> (r: Vec<String>)
    ensures
        texts(r@) == texts(names@).filter(
            |name: Seq<char>| beyond_scale(name, prefix@, replicas),
        ),
{
    let mut r: Vec<String> = Vec::new();
    let mut i: usize = 0;
    let ghost pred = |name: Seq<char>| beyond_scale(name, prefix@, replicas);
    proof {
        reveal(Seq::filter);
        assert(texts(r@) =~= texts(names@).take(0).filter(pred));
    }
    while i < names.len()
        invariant
            i <= names@.len(),
            pred == (|name: Seq<char>| beyond_scale(name, prefix@, replicas)),
            texts(r@) == texts(names@).take(i as int).filter(pred),
        decreases names.len() - i,
    {
        let ghost before = texts(r@);
        if is_beyond_scale(names[i].as_str(), prefix, replicas) {
            r.push(names[i].clone());
            assert(texts(r@) =~= before.push(names@[i as int]@));
        }
        proof {
            reveal(Seq::filter);
            let next = texts(names@).take(i + 1);
            assert(next.drop_last() =~= texts(names@).take(i as int));
            assert(next.last() == names@[i as int]@);
        }
        i += 1;
    }
    assert(texts(names@).take(i as int) =~= texts(names@));
    r
}

/// The service of a unit is deleted on scale-down exactly where its index is from the wanted number
/// on: `i` is any index of 16 bits.
pub proof fn law_scale_down_keeps_wanted_services(group: Seq<char>, i: nat, replicas: u16)
    requires
        i <= u16::MAX,
    ensures
        beyond_scale(spu_service_name(unit_name(group, i)), service_prefix(group), replicas) <==> i
            >= replicas,
{
    let name = spu_service_name(unit_name(group, i));
    let prefix = service_prefix(group);
    assert(name =~= prefix + digits(i));
    assert(name.take(prefix.len() as int) =~= prefix);
    assert(name.skip(prefix.len() as int) =~= digits(i));
    assert(has_prefix(name, prefix));
    law_read_back(i, u16::MAX as nat);
    assert(index_after(name, prefix) == Some(i));
}

} // verus!
