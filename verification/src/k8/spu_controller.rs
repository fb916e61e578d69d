//! The reconciliation of a group with the objects of its units.
use vstd::prelude::*;

use crate::decimal::{digits, law_read_back};
use crate::json::Json;
use crate::k8::group::{
    beyond_scale, index_after, is_beyond_scale, is_owned_by_group, owned_by_group, read_min_id,
    wanted_min_id, KubeObject,
};
use crate::k8::ingress::{build_services_map, port_models, services_map, ListedService};
use crate::k8::objects::OwnerReference;
use crate::k8::service::{no_ingress, IngressPort, PortModel};
use crate::k8::service_controller::{plan_units, GroupPlan};
use crate::k8::set_controller::NO_SPEC_DELAY;
use crate::k8::spu_object::{build_spu_object, spu_object};
use crate::k8::spu_service::{group_unit_name, unit_name};
use crate::string_map::StringMap;
use crate::text::{has_prefix, texts};

verus! {

/// Seconds until a group is looked at again when all is done.
pub const SPU_DONE_DELAY: u64 = 60;

/// Where the reconciliation stands.
#[derive(Debug, Clone, Copy, PartialEq, Eq, Structural)]
pub enum SpuStage {
    /// The services of the units are awaited.
    Discovering,
    /// The object of a unit is being applied.
    Applying,
    /// The objects of all units are awaited.
    Listing,
    /// Objects that are no longer wanted are being deleted.
    Cleaning,
    /// Nothing is left to do.
    Done,
}

/// What the reconciliation asks for.
#[derive(Debug)]
pub enum SpuAction {
    /// Apply the object of a unit.
    Apply { name: String, object: Json },
    /// List the objects of the units.
    List,
    /// Delete some objects; whether that works does not matter.
    DeleteAll { names: Vec<String> },
    /// Look at the group again after some seconds.
    Requeue { seconds: u64 },
}

/// The reconciliation of the units of one group.
#[derive(Debug)]
pub struct SpuRun {
    pub name: String,
    pub namespace: String,
    pub uid: String,
    pub replicas: u16,
    pub min_id: i32,
    /// Where the units are reached.
    pub services: StringMap<IngressPort>,
    /// The unit at hand.
    pub index: u16,
    pub stage: SpuStage,
}

/// Where a unit is reached; nowhere where no service shows it.
pub open spec fn endpoint_of(services: Map<Seq<char>, PortModel>, name: Seq<char>) -> PortModel {
    if services.contains_key(name) {
        services[name]
    } else {
        no_ingress()
    }
}

/// Whether the object is one that its group no longer wants: it has the name of a unit beyond the
/// wanted number, and the group owns it.
pub open spec fn is_orphan(spu: KubeObject, group: Seq<char>, replicas: u16) -> bool {
    beyond_scale(spu.name@, group + "-"@, replicas) && owned_by_group(spu.owners@, group)
}

/// The names of the objects that the group no longer wants.
pub open spec fn orphaned_units(spus: Seq<KubeObject>, group: Seq<char>, replicas: u16) -> Seq<
    Seq<char>,
> {
    spus.filter(|spu: KubeObject| is_orphan(spu, group, replicas)).map_values(
        |spu: KubeObject| spu.name@,
    )
}

impl SpuRun {
    pub open spec fn same_group(self, other: SpuRun) -> bool {
        &&& self.name@ == other.name@
        &&& self.namespace@ == other.namespace@
        &&& self.uid@ == other.uid@
        &&& self.replicas == other.replicas
        &&& self.min_id == other.min_id
    }

    /// The identifiers of all units fit 32 bits.
    pub open spec fn ids_fit(self) -> bool {
        self.replicas > 0 ==> self.min_id + self.replicas - 1 <= i32::MAX
    }

    pub open spec fn wf(self) -> bool {
        self.stage == SpuStage::Applying ==> self.index < self.replicas
    }

    /// The action applies the object of the unit at hand.
    pub open spec fn applies(self, action: SpuAction) -> bool {
        let spu_name = unit_name(self.name@, self.index as nat);
        &&& action matches SpuAction::Apply { name, object }
        &&& name@ == spu_name
        &&& exists|owner: OwnerReference| #[trigger]
            owner.is_group(self.name@, self.uid@) && object@ == spu_object(
                spu_name,
                self.name@,
                self.index as nat,
                self.min_id + self.index,
                endpoint_of(port_models(self.services@), spu_name),
                self.namespace@,
                owner,
            )
    }

    /// The run stands before the object of the unit `index`, or before the list of all objects
    /// where there is no such unit.
    pub open spec fn stands_before(self, index: int, action: SpuAction) -> bool {
        if index < self.replicas {
            self.stage == SpuStage::Applying && self.index == index && self.applies(action)
        } else {
            self.stage == SpuStage::Listing && action is List
        }
    }

    /// Starts on a group. One without a specification is looked at again after some seconds. The
    /// services that carry the name of a unit are asked for first.
    pub fn start(spg: &KubeObject, default_namespace: &str) -> (r: Result<SpuRun, u64>)
        ensures
            (match r {
                Ok(run) => {
                    &&& spg.data@.get("spec"@) matches Some(spec)
                    &&& run.name@ == spg.name@
                    &&& run.namespace@ == crate::k8::group::text_or(
                        spg.namespace,
                        default_namespace@,
                    )
                    &&& run.uid@ == crate::k8::group::text_or(spg.uid, Seq::empty())
                    &&& run.replicas == crate::k8::group::wanted_replicas(spec) as u16
                    &&& run.min_id == wanted_min_id(spec) as i32
                    &&& run.stage == SpuStage::Discovering
                    &&& run.wf()
                },
                Err(seconds) => spg.data@.get("spec"@) is None && seconds == NO_SPEC_DELAY,
            }),
    {
        let plan: GroupPlan = match plan_units(spg, default_namespace) {
            Ok(plan) => plan,
            Err(seconds) => {
                return Err(seconds);
            },
        };
        match spg.data.get("spec") {
            Some(spec) => {
                #[verifier::truncate]
                let min_id: i32 = read_min_id(spec) as i32;
                Ok(
                    SpuRun {
                        name: plan.name,
                        namespace: plan.namespace,
                        uid: plan.uid,
                        replicas: plan.replicas,
                        min_id,
                        services: StringMap::new(),
                        index: 0,
                        stage: SpuStage::Discovering,
                    },
                )
            },
            None => Err(NO_SPEC_DELAY),
        }
    }

    fn apply_current(&self) -> (action: SpuAction)
        requires
            self.ids_fit(),
            self.index < self.replicas,
        ensures
            self.applies(action),
    {
        let spu_name = group_unit_name(self.name.as_str(), self.index);
        let spu_id: i32 = (self.min_id as i64 + self.index as i64) as i32;
        let endpoint = match self.services.get(spu_name.as_str()) {
            Some(p) => p.clone(),
            None => IngressPort::default(),
        };
        assert(endpoint@ == endpoint_of(port_models(self.services@), spu_name@));
        let owner = OwnerReference::group(self.name.as_str(), self.uid.as_str());
        let object = build_spu_object(
            spu_name.as_str(),
            self.name.as_str(),
            self.index,
            spu_id,
            &endpoint,
            self.namespace.as_str(),
            &owner,
        );
        SpuAction::Apply { name: spu_name, object }
    }

    /// Takes the services that carry the name of a unit.
    pub fn discovered(&mut self, services: &Vec<ListedService>) -> (action: SpuAction)
        requires
            old(self).stage == SpuStage::Discovering,
            old(self).ids_fit(),
        ensures
            final(self).wf(),
            final(self).same_group(*old(self)),
            port_models(final(self).services@) == services_map(services@),
            final(self).stands_before(0, action),
    {
        self.services = build_services_map(services);
        if self.replicas > 0 {
            self.index = 0;
            self.stage = SpuStage::Applying;
            self.apply_current()
        } else {
            self.stage = SpuStage::Listing;
            SpuAction::List
        }
    }

    /// Goes on after the object of a unit was applied.
    pub fn applied(&mut self) -> (action: SpuAction)
        requires
            old(self).wf(),
            old(self).stage == SpuStage::Applying,
            old(self).ids_fit(),
        ensures
            final(self).wf(),
            final(self).same_group(*old(self)),
            final(self).services == old(self).services,
            final(self).stands_before(old(self).index + 1, action),
    {
        if self.index + 1 < self.replicas {
            self.index = self.index + 1;
            self.apply_current()
        } else {
            self.stage = SpuStage::Listing;
            SpuAction::List
        }
    }

    /// Takes the objects of all units of the namespace.
    pub fn listed(&mut self, spus: &Vec<KubeObject>) -> (action: SpuAction)
        requires
            old(self).wf(),
            old(self).stage == SpuStage::Listing,
        ensures
            final(self).wf(),
            final(self).same_group(*old(self)),
            final(self).stage == SpuStage::Cleaning,
            action matches SpuAction::DeleteAll { names } && texts(names@) == orphaned_units(
                spus@,
                old(self).name@,
                old(self).replicas,
            ),
    {
        let prefix = self.name.clone().concat("-");
        let mut names: Vec<String> = Vec::new();
        let mut i: usize = 0;
        let ghost group = self.name@;
        let ghost replicas = self.replicas;
        let ghost pred = |spu: KubeObject| is_orphan(spu, group, replicas);
        proof {
            reveal(Seq::filter);
            assert(texts(names@) =~= orphaned_units(spus@.take(0), group, replicas));
        }
        while i < spus.len()
            invariant
                i <= spus@.len(),
                group == self.name@,
                replicas == self.replicas,
                prefix@ == group + "-"@,
                texts(names@) == orphaned_units(spus@.take(i as int), group, replicas),
                pred == (|spu: KubeObject| is_orphan(spu, group, replicas)),
            decreases spus.len() - i,
        {
            let ghost before = texts(names@);
            let ghost kept = spus@.take(i as int).filter(pred);
            if is_beyond_scale(spus[i].name.as_str(), prefix.as_str(), self.replicas)
                && is_owned_by_group(&spus[i].owners, self.name.as_str()) {
                names.push(spus[i].name.clone());
                assert(texts(names@) =~= before.push(spus@[i as int].name@));
            }
            proof {
                reveal(Seq::filter);
                let next = spus@.take(i + 1);
                assert(next.drop_last() =~= spus@.take(i as int));
                assert(next.last() == spus@[i as int]);
                if is_orphan(spus@[i as int], group, replicas) {
                    assert(next.filter(pred) == kept.push(spus@[i as int]));
                } else {
                    assert(next.filter(pred) == kept);
                }
                assert(texts(names@) =~= orphaned_units(next, group, replicas));
            }
            i += 1;
        }
        assert(spus@.take(i as int) =~= spus@);
        self.stage = SpuStage::Cleaning;
        SpuAction::DeleteAll { names }
    }

    /// Ends the run after the unwanted objects were deleted.
    pub fn cleaned(&mut self) -> (action: SpuAction)
        requires
            old(self).wf(),
            old(self).stage == SpuStage::Cleaning,
        ensures
            final(self).wf(),
            final(self).same_group(*old(self)),
            final(self).stage == SpuStage::Done,
            action == (SpuAction::Requeue { seconds: SPU_DONE_DELAY }),
    {
        self.stage = SpuStage::Done;
        SpuAction::Requeue { seconds: SPU_DONE_DELAY }
    }
}

/// The object of a unit is deleted on scale-down exactly where its index is from the wanted number
/// on and the group owns it: `i` is any index of 16 bits.
pub proof fn law_scale_down_keeps_wanted_units(
    spu: KubeObject,
    group: Seq<char>,
    i: nat,
    replicas: u16,
)
    requires
        i <= u16::MAX,
        spu.name@ == unit_name(group, i),
    ensures
        is_orphan(spu, group, replicas) <==> i >= replicas && owned_by_group(spu.owners@, group),
{
    let name = unit_name(group, i);
    let prefix = group + "-"@;
    assert(name.take(prefix.len() as int) =~= prefix);
    assert(name.skip(prefix.len() as int) =~= digits(i));
    assert(has_prefix(name, prefix));
    law_read_back(i, u16::MAX as nat);
    assert(index_after(name, prefix) == Some(i));
}

} // verus!
