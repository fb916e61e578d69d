//! The reconciliation of a group with its stateful set and headless service.
use vstd::prelude::*;

use crate::decimal::{decimal_signed, numeral};
use crate::json::{no_members, Json, JsonTree, Members};
use crate::k8::group::{
    copy_or, is_owned_by_uid, owned_by_uid, read_min_id, read_replicas, text_or, wanted_min_id,
    wanted_replicas, KubeObject,
};
use crate::k8::objects::{
    api_version, group_version, OwnerReference, ScK8Config, TlsConfig, SPG_KIND,
};
use crate::k8::statefulset::{
    build_headless_service, build_statefulset, group_set_name, headless_service, set_name,
    stateful_set,
};
use crate::text::{opt_text, text_eq};

verus! {

/// Seconds until a group without a specification is looked at again.
pub const NO_SPEC_DELAY: u64 = 60;

/// Seconds until a group is looked at again after a failure.
pub const RETRY_DELAY: u64 = 30;

/// Seconds until a group is looked at again when all is done.
pub const DONE_DELAY: u64 = 300;

/// The identifier of a unit, in 32 bits, where it has one.
pub open spec fn spu_id(data: JsonTree) -> Option<i32> {
    match data.get("spec"@) {
        Some(spec) => match spec.get("spuId"@) {
            Some(v) => match v.as_i64() {
                Some(n) => Some(n as i32),
                None => None,
            },
            None => None,
        },
        None => None,
    }
}

fn read_spu_id(data: &Json) -> (r: Option<i32>)
    ensures
        r == spu_id(data@),
{
    match data.get("spec") {
        Some(spec) => match spec.get("spuId") {
            Some(v) => match v.as_i64() {
                Some(n) => {
                    #[verifier::truncate]
                    let id: i32 = n as i32;
                    Some(id)
                },
                None => None,
            },
            None => None,
        },
        None => None,
    }
}

/// Whether a unit stands in the way of a group that takes the identifiers from `from` up to `to`:
/// it is not the group's own and has one of them.
pub open spec fn in_the_way(spu: KubeObject, uid: Seq<char>, from: int, to: int) -> bool {
    !owned_by_uid(spu.owners@, uid) && (match spu_id(spu.data@) {
        Some(id) => from <= id < to,
        None => false,
    })
}

/// The identifier of the first unit that stands in the way.
pub open spec fn first_conflict(
    spus: Seq<KubeObject>,
    uid: Seq<char>,
    from: int,
    to: int,
) -> Option<i32>
    decreases spus.len(),
{
    if spus.len() == 0 {
        None
    } else if in_the_way(spus[0], uid, from, to) {
        spu_id(spus[0].data@)
    } else {
        first_conflict(spus.skip(1), uid, from, to)
    }
}

/// There is a conflict exactly where some unit stands in the way.
pub proof fn law_conflict_iff_in_the_way(
    spus: Seq<KubeObject>,
    uid: Seq<char>,
    from: int,
    to: int,
)
    ensures
        first_conflict(spus, uid, from, to) is Some <==> exists|i: int|
            0 <= i < spus.len() && in_the_way(#[trigger] spus[i], uid, from, to),
    decreases spus.len(),
{
    if spus.len() > 0 {
        let rest = spus.skip(1);
        law_conflict_iff_in_the_way(rest, uid, from, to);
        if exists|i: int| 0 <= i < spus.len() && in_the_way(#[trigger] spus[i], uid, from, to) {
            let i = choose|i: int|
                0 <= i < spus.len() && in_the_way(#[trigger] spus[i], uid, from, to);
            if i > 0 {
                assert(rest[i - 1] == spus[i]);
            }
        }
        if exists|i: int| 0 <= i < rest.len() && in_the_way(#[trigger] rest[i], uid, from, to) {
            let i = choose|i: int|
                0 <= i < rest.len() && in_the_way(#[trigger] rest[i], uid, from, to);
            assert(spus[i + 1] == rest[i]);
        }
    }
}

/// Whether the document of a unit says that its identifier is `id`, in 32 bits, and none of the
/// unit's owners has the identity `uid`.
pub open spec fn holds_foreign_id(spu: KubeObject, uid: Seq<char>, id: int) -> bool {
    &&& forall|o: int| 0 <= o < spu.owners@.len() ==> (#[trigger] spu.owners@[o]).uid@ != uid
    &&& spu.data@.get("spec"@) matches Some(spec)
    &&& spec.get("spuId"@) matches Some(JsonTree::Int(n))
    &&& i64::MIN <= n <= i64::MAX
    &&& (n as i64) as i32 == id
}

/// The units of a group get the identifiers from its first one on, as many as it has units. The group
/// is in conflict exactly where a unit that it does not own has one of these identifiers, be it the
/// first, the last or one between. The identifier that is reported is one of the group's, and the
/// unit that has it comes before all others that have one.
pub proof fn law_group_is_rejected_iff_an_id_is_taken(
    spus: Seq<KubeObject>,
    uid: Seq<char>,
    min_id: int,
    replicas: int,
)
    requires
        i32::MIN <= min_id <= i32::MAX,
        i32::MIN <= min_id + replicas <= i32::MAX,
    ensures
        ({
            let found = first_conflict(spus, uid, min_id, min_id + replicas);
            &&& found is Some <==> exists|i: int, k: int|
                0 <= i < spus.len() && 0 <= k < replicas && #[trigger] holds_foreign_id(
                    spus[i],
                    uid,
                    min_id + k,
                )
            &&& found matches Some(id) ==> exists|i: int, k: int|
                {
                    &&& 0 <= i < spus.len() && 0 <= k < replicas && id == min_id + k
                    &&& #[trigger] holds_foreign_id(spus[i], uid, min_id + k)
                    &&& forall|j: int, l: int|
                        0 <= j < i && 0 <= l < replicas ==> !#[trigger] holds_foreign_id(
                            spus[j],
                            uid,
                            min_id + l,
                        )
                }
        }),
    decreases spus.len(),
{
    if spus.len() > 0 {
        let rest = spus.skip(1);
        let to = min_id + replicas;
        law_group_is_rejected_iff_an_id_is_taken(rest, uid, min_id, replicas);
        let found = first_conflict(spus, uid, min_id, to);
        if in_the_way(spus[0], uid, min_id, to) {
            let k = found->0 - min_id;
            assert(holds_foreign_id(spus[0], uid, min_id + k));
        } else {
            assert forall|l: int| 0 <= l < replicas implies !#[trigger] holds_foreign_id(
                spus[0],
                uid,
                min_id + l,
            ) by {}
            if found is Some {
                let (i, k) = choose|i: int, k: int|
                    {
                        &&& 0 <= i < rest.len() && 0 <= k < replicas && found->0 == min_id + k
                        &&& #[trigger] holds_foreign_id(rest[i], uid, min_id + k)
                        &&& forall|j: int, l: int|
                            0 <= j < i && 0 <= l < replicas ==> !#[trigger] holds_foreign_id(
                                rest[j],
                                uid,
                                min_id + l,
                            )
                    };
                assert(holds_foreign_id(spus[i + 1], uid, min_id + k));
                assert forall|j: int, l: int|
                    0 <= j < i + 1 && 0 <= l < replicas implies !#[trigger] holds_foreign_id(
                    spus[j],
                    uid,
                    min_id + l,
                ) by {
                    if j > 0 {
                        assert(rest[j - 1] == spus[j]);
                    }
                }
            }
            if exists|i: int, k: int|
                0 <= i < spus.len() && 0 <= k < replicas && #[trigger] holds_foreign_id(
                    spus[i],
                    uid,
                    min_id + k,
                ) {
                let (i, k) = choose|i: int, k: int|
                    0 <= i < spus.len() && 0 <= k < replicas && #[trigger] holds_foreign_id(
                        spus[i],
                        uid,
                        min_id + k,
                    );
                assert(i > 0);
                assert(rest[i - 1] == spus[i]);
                assert(holds_foreign_id(rest[i - 1], uid, min_id + k));
            }
        }
    }
}

/// A patch that sets the status of a group.
pub open spec fn status_patch(status: Seq<(Seq<char>, JsonTree)>) -> JsonTree {
    JsonTree::Object(
        no_members().push(("apiVersion"@, JsonTree::Text(api_version()))).push(
            ("kind"@, JsonTree::Text(SPG_KIND@)),
        ).push(("status"@, JsonTree::Object(status))),
    )
}

/// The status of a group one of whose identifiers is taken.
pub open spec fn invalid_patch(id: int) -> JsonTree {
    status_patch(
        no_members().push(("resolution"@, JsonTree::Text("Invalid"@))).push(
            (
                "reason"@,
                JsonTree::Text("SPU ID conflict with existing id: "@ + numeral(id)),
            ),
        ),
    )
}

/// The status of a group whose identifiers are its own.
pub open spec fn reserved_patch() -> JsonTree {
    status_patch(no_members().push(("resolution"@, JsonTree::Text("Reserved"@))))
}

fn build_status_patch(status: Members) -> (j: Json)
    ensures
        j@ == status_patch(status@),
{
    let version = group_version();
    Members::new().with("apiVersion", Json::text(version.as_str())).with(
        "kind",
        Json::text(SPG_KIND),
    ).with("status", status.into_object()).into_object()
}

fn build_invalid_patch(id: i32) -> (j: Json)
    ensures
        j@ == invalid_patch(id as int),
{
    let reason = "SPU ID conflict with existing id: ".to_owned().concat(
        decimal_signed(id as i64).as_str(),
    );
    build_status_patch(
        Members::new().with("resolution", Json::text("Invalid")).with(
            "reason",
            Json::text(reason.as_str()),
        ),
    )
}

fn build_reserved_patch() -> (j: Json)
    ensures
        j@ == reserved_patch(),
{
    build_status_patch(Members::new().with("resolution", Json::text("Reserved")))
}

/// The resolution in the status of a group, `Init` where it has none.
pub open spec fn current_resolution(data: JsonTree) -> Seq<char> {
    match data.get("status"@) {
        Some(status) => match status.get("resolution"@) {
            Some(v) => match v.as_text() {
                Some(s) => s,
                None => "Init"@,
            },
            None => "Init"@,
        },
        None => "Init"@,
    }
}

fn is_reserved(data: &Json) -> (r: bool)
    ensures
        r == (current_resolution(data@) == "Reserved"@),
{
    proof {
        reveal_strlit("Init");
        reveal_strlit("Reserved");
        assert("Init"@.len() == 4 && "Reserved"@.len() == 8);
    }
    match data.get("status") {
        Some(status) => match status.get("resolution") {
            Some(v) => match v.as_str() {
                Some(s) => text_eq(s.as_str(), "Reserved"),
                None => false,
            },
            None => false,
        },
        None => false,
    }
}

/// Where the reconciliation of a group stands.
#[derive(Debug, Clone, Copy, PartialEq, Eq, Structural)]
pub enum SetStage {
    /// The units of the cluster are awaited.
    Listing,
    /// The group is being told that it is invalid.
    Rejecting,
    /// The group is being told that its identifiers are its own.
    Reserving,
    /// The configuration is awaited.
    Loading,
    /// The service and the stateful set are being applied.
    Applying,
    /// Nothing is left to do.
    Done,
}

/// What the reconciliation of a group asks for.
#[derive(Debug)]
pub enum SetAction {
    /// Set the status of the group; whether that works does not matter.
    PatchStatus { patch: Json },
    /// Load the configuration of the units.
    LoadConfig,
    /// Apply the headless service and then the stateful set, both under one name.
    Apply { name: String, service: Json, set: Json },
    /// Look at the group again after some seconds.
    Requeue { seconds: u64 },
}

/// The reconciliation of one group.
#[derive(Debug)]
pub struct SetRun {
    pub name: String,
    pub namespace: String,
    pub uid: String,
    pub replicas: i32,
    pub min_id: i32,
    pub reserved: bool,
    pub stage: SetStage,
}

impl SetRun {
    /// The group that the run is about stays the same.
    pub open spec fn same_group(self, other: SetRun) -> bool {
        &&& self.name@ == other.name@
        &&& self.namespace@ == other.namespace@
        &&& self.uid@ == other.uid@
        &&& self.replicas == other.replicas
        &&& self.min_id == other.min_id
        &&& self.reserved == other.reserved
    }

    /// Starts on a group. One without a specification is looked at again after some seconds.
    pub fn start(spg: &KubeObject, default_namespace: &str) -> (r: Result<SetRun, u64>)
        ensures
            (match r {
                Ok(run) => {
                    &&& spg.data@.get("spec"@) matches Some(spec)
                    &&& run.name@ == spg.name@
                    &&& run.namespace@ == text_or(spg.namespace, default_namespace@)
                    &&& run.uid@ == text_or(spg.uid, Seq::empty())
                    &&& run.replicas == wanted_replicas(spec) as i32
                    &&& run.min_id == wanted_min_id(spec) as i32
                    &&& run.reserved == (current_resolution(spg.data@) == "Reserved"@)
                    &&& run.stage == SetStage::Listing
                },
                Err(seconds) => spg.data@.get("spec"@) is None && seconds == NO_SPEC_DELAY,
            }),
    {
        match spg.data.get("spec") {
            Some(spec) => {
                #[verifier::truncate]
                let replicas: i32 = read_replicas(spec) as i32;
                #[verifier::truncate]
                let min_id: i32 = read_min_id(spec) as i32;
                let none = String::new();
                assert(none@ =~= Seq::empty());
                Ok(
                    SetRun {
                        name: spg.name.clone(),
                        namespace: copy_or(&spg.namespace, default_namespace),
                        uid: copy_or(&spg.uid, none.as_str()),
                        replicas,
                        min_id,
                        reserved: is_reserved(&spg.data),
                        stage: SetStage::Listing,
                    },
                )
            },
            None => Err(NO_SPEC_DELAY),
        }
    }

    fn find_conflict(&self, spus: &Vec<KubeObject>) -> (r: Option<i32>)
        requires
            i32::MIN <= self.min_id + self.replicas <= i32::MAX,
        ensures
            r == first_conflict(
                spus@,
                self.uid@,
                self.min_id as int,
                self.min_id + self.replicas,
            ),
    {
        let end: i32 = self.min_id + self.replicas;
        let mut i: usize = 0;
        assert(spus@.skip(0) =~= spus@);
        while i < spus.len()
            invariant
                i <= spus@.len(),
                end == self.min_id + self.replicas,
                first_conflict(spus@.skip(i as int), self.uid@, self.min_id as int, end as int)
                    == first_conflict(spus@, self.uid@, self.min_id as int, end as int),
            decreases spus.len() - i,
        {
            assert(spus@.skip(i as int)[0] == spus@[i as int]);
            assert(spus@.skip(i as int).skip(1) =~= spus@.skip(i + 1));
            if !is_owned_by_uid(&spus[i].owners, self.uid.as_str()) {
                if let Some(id) = read_spu_id(&spus[i].data) {
                    if id >= self.min_id && id < end {
                        return Some(id);
                    }
                }
            }
            i += 1;
        }
        None
    }

    /// Takes the units of the namespace. Where one of them stands in the way the group is told so,
    /// and nothing is applied. Else the group is told that its identifiers are its own, unless it
    /// was before.
    pub fn listed(&mut self, spus: &Vec<KubeObject>) -> (action: SetAction)
        requires
            old(self).stage == SetStage::Listing,
            i32::MIN <= old(self).min_id + old(self).replicas <= i32::MAX,
        ensures
            final(self).same_group(*old(self)),
            (match first_conflict(
                spus@,
                old(self).uid@,
                old(self).min_id as int,
                old(self).min_id + old(self).replicas,
            ) {
                Some(id) => {
                    &&& final(self).stage == SetStage::Rejecting
                    &&& action matches SetAction::PatchStatus { patch }
                    &&& patch@ == invalid_patch(id as int)
                },
                None => if old(self).reserved {
                    &&& final(self).stage == SetStage::Loading
                    &&& action is LoadConfig
                } else {
                    &&& final(self).stage == SetStage::Reserving
                    &&& action matches SetAction::PatchStatus { patch }
                    &&& patch@ == reserved_patch()
                },
            }),
            final(self).stage == SetStage::Rejecting <==> exists|i: int, k: int|
                0 <= i < spus@.len() && 0 <= k < old(self).replicas && #[trigger] holds_foreign_id(
                    spus@[i],
                    old(self).uid@,
                    old(self).min_id + k,
                ),
    {
        proof {
            law_group_is_rejected_iff_an_id_is_taken(
                spus@,
                self.uid@,
                self.min_id as int,
                self.replicas as int,
            );
        }
        match self.find_conflict(spus) {
            Some(id) => {
                self.stage = SetStage::Rejecting;
                SetAction::PatchStatus { patch: build_invalid_patch(id) }
            },
            None => {
                if self.reserved {
                    self.stage = SetStage::Loading;
                    SetAction::LoadConfig
                } else {
                    self.stage = SetStage::Reserving;
                    SetAction::PatchStatus { patch: build_reserved_patch() }
                }
            },
        }
    }

    /// Goes on after the status was set. A group that was rejected is left alone for a while.
    pub fn status_set(&mut self) -> (action: SetAction)
        requires
            old(self).stage == SetStage::Rejecting || old(self).stage == SetStage::Reserving,
        ensures
            final(self).same_group(*old(self)),
            old(self).stage == SetStage::Rejecting ==> final(self).stage == SetStage::Done
                && action == (SetAction::Requeue { seconds: RETRY_DELAY }),
            old(self).stage == SetStage::Reserving ==> final(self).stage == SetStage::Loading
                && action is LoadConfig,
    {
        match self.stage {
            SetStage::Rejecting => {
                self.stage = SetStage::Done;
                SetAction::Requeue { seconds: RETRY_DELAY }
            },
            _ => {
                self.stage = SetStage::Loading;
                SetAction::LoadConfig
            },
        }
    }

    /// Takes the configuration, `None` where it could not be loaded.
    pub fn config_loaded(
        &mut self,
        config: &Option<ScK8Config>,
        tls: &Option<TlsConfig>,
        rust_log: &Option<String>,
    ) -> (action: SetAction)
        requires
            old(self).stage == SetStage::Loading,
        ensures
            final(self).same_group(*old(self)),
            (match *config {
                Some(c) => {
                    &&& final(self).stage == SetStage::Applying
                    &&& action matches SetAction::Apply { name, service, set }
                    &&& name@ == set_name(old(self).name@)
                    &&& exists|owner: OwnerReference| #[trigger]
                        owner.is_group(old(self).name@, old(self).uid@) && service@
                            == headless_service(old(self).name@, old(self).namespace@, owner)
                            && set@ == stateful_set(
                            old(self).name@,
                            old(self).namespace@,
                            old(self).replicas as int,
                            old(self).min_id as int,
                            c,
                            *tls,
                            opt_text(*rust_log),
                            owner,
                        )
                },
                None => {
                    &&& final(self).stage == SetStage::Done
                    &&& action == (SetAction::Requeue { seconds: RETRY_DELAY })
                },
            }),
    {
        match config {
            Some(c) => {
                let owner = OwnerReference::group(self.name.as_str(), self.uid.as_str());
                let service = build_headless_service(
                    self.name.as_str(),
                    self.namespace.as_str(),
                    &owner,
                );
                let set = build_statefulset(
                    self.name.as_str(),
                    self.namespace.as_str(),
                    self.replicas,
                    self.min_id,
                    c,
                    tls,
                    rust_log,
                    &owner,
                );
                self.stage = SetStage::Applying;
                SetAction::Apply { name: group_set_name(self.name.as_str()), service, set }
            },
            None => {
                self.stage = SetStage::Done;
                SetAction::Requeue { seconds: RETRY_DELAY }
            },
        }
    }

    /// Ends the run after the service and the stateful set were applied.
    pub fn applied(&mut self) -> (action: SetAction)
        requires
            old(self).stage == SetStage::Applying,
        ensures
            final(self).same_group(*old(self)),
            final(self).stage == SetStage::Done,
            action == (SetAction::Requeue { seconds: DONE_DELAY }),
    {
        self.stage = SetStage::Done;
        SetAction::Requeue { seconds: DONE_DELAY }
    }
}

} // verus!
