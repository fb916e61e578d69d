//! What a group asks for, what it is told, and what is deleted when it has fewer units.
use vstd::prelude::*;

use crate::decimal::{digits, law_read_back, law_read_of_other_texts, numeral};
use crate::json::{lemma_find_none, lemma_find_push, JsonTree};
use crate::k8::group::{
    beyond_scale, index_after, owned_by_group, wanted_min_id, wanted_replicas, KubeObject,
};
use crate::k8::service::{EncryptionEnum, IngressPort, PortModel};
use crate::k8::service_controller::{
    orphaned_services, service_prefix, ServiceAction, ServiceRun, ServiceStage,
};
use crate::k8::set_controller::{current_resolution, invalid_patch, reserved_patch};
use crate::k8::spg_group::{first_collision, public_endpoint_of, StoredSpu};
use crate::k8::spu_controller::{endpoint_of, orphaned_units, SpuAction, SpuRun, SpuStage};
use crate::k8::spu_service::{spu_service_name, unit_name};
use crate::text::{has_prefix, lemma_filter_from, opt_text};

verus! {

/// A group has as many units as its specification says, and one where that says no number that a
/// count can be.
pub proof fn law_group_has_as_many_units_as_it_says(spec: JsonTree)
    ensures
        spec.get("replicas"@) matches Some(JsonTree::Int(n)) ==> (0 <= n <= u64::MAX
            ==> wanted_replicas(spec) == n),
        !(spec.get("replicas"@) matches Some(JsonTree::Int(n)) && 0 <= n <= u64::MAX)
            ==> wanted_replicas(spec) == 1,
{
}

/// The first identifier of a group is the one its specification says, and zero where that says no
/// number of 64 bits.
pub proof fn law_group_starts_at_the_identifier_it_says(spec: JsonTree)
    ensures
        spec.get("minId"@) matches Some(JsonTree::Int(n)) ==> (i64::MIN <= n <= i64::MAX
            ==> wanted_min_id(spec) == n),
        !(spec.get("minId"@) matches Some(JsonTree::Int(n)) && i64::MIN <= n <= i64::MAX)
            ==> wanted_min_id(spec) == 0,
{
}

/// A group whose identifier `id` is taken is told that it is invalid, and which identifier it is.
/// Read as a group's status, that is not the resolution of a group whose identifiers are its own.
pub proof fn law_group_is_told_the_identifier(id: int)
    ensures
        ({
            let patch = invalid_patch(id);
            let status = patch.get("status"@)->0;
            &&& patch.get("apiVersion"@) == Some(JsonTree::Text("fluvio.infinyon.com/v1"@))
            &&& patch.get("kind"@) == Some(JsonTree::Text("SpuGroup"@))
            &&& status.get("resolution"@) == Some(JsonTree::Text("Invalid"@))
            &&& status.get("reason"@) == Some(
                JsonTree::Text("SPU ID conflict with existing id: "@ + numeral(id)),
            )
            &&& current_resolution(patch) == "Invalid"@
            &&& current_resolution(patch) != "Reserved"@
        }),
{
    broadcast use lemma_find_push, lemma_find_none;

    lemma_patch_keys();
    reveal_strlit("resolution");
    reveal_strlit("reason");
    reveal_strlit("Invalid");
    reveal_strlit("Reserved");
    assert("resolution"@.len() == 10 && "reason"@.len() == 6 && "Invalid"@.len() == 7
        && "Reserved"@.len() == 8);
    let patch = invalid_patch(id);
    let status = patch.get("status"@)->0;
    assert(patch.get("status"@) is Some);
    assert(status.get("resolution"@) == Some(JsonTree::Text("Invalid"@)));
}

proof fn lemma_patch_keys()
    ensures
        "fluvio.infinyon.com/v1"@ == "fluvio.infinyon.com"@ + "/"@ + "v1"@,
        "apiVersion"@.len() == 10,
        "kind"@.len() == 4,
        "status"@.len() == 6,
{
    reveal_strlit("fluvio.infinyon.com");
    reveal_strlit("/");
    reveal_strlit("v1");
    reveal_strlit("fluvio.infinyon.com/v1");
    reveal_strlit("apiVersion");
    reveal_strlit("kind");
    reveal_strlit("status");
    assert("fluvio.infinyon.com/v1"@ =~= "fluvio.infinyon.com"@ + "/"@ + "v1"@);
}

/// What a group whose identifiers are its own is told is read back as that, without a reason.
pub proof fn law_group_is_told_that_it_is_reserved()
    ensures
        ({
            let patch = reserved_patch();
            &&& patch.get("apiVersion"@) == Some(JsonTree::Text("fluvio.infinyon.com/v1"@))
            &&& patch.get("kind"@) == Some(JsonTree::Text("SpuGroup"@))
            &&& patch.get("status"@) matches Some(status) && status.get("reason"@) is None
            &&& current_resolution(patch) == "Reserved"@
        }),
{
    broadcast use lemma_find_push, lemma_find_none;

    lemma_patch_keys();
    reveal_strlit("resolution");
    reveal_strlit("reason");
    assert("resolution"@.len() == 10 && "reason"@.len() == 6);
    let patch = reserved_patch();
    let status = patch.get("status"@)->0;
    assert(patch.get("status"@) is Some);
    assert(status.get("resolution"@) == Some(JsonTree::Text("Reserved"@)));
}

/// The resolution of a group is the text in its status, and `Init` where there is none.
pub proof fn law_resolution_is_the_text_in_the_status(group: JsonTree)
    ensures
        group.get("status"@) matches Some(status) ==> (status.get("resolution"@) matches Some(
            JsonTree::Text(s),
        ) ==> current_resolution(group) == s),
        group.get("status"@) is None ==> current_resolution(group) == "Init"@,
        group.get("status"@) matches Some(status) ==> (!(status.get("resolution"@) is Some
            && status.get("resolution"@)->0 is Text) ==> current_resolution(group) == "Init"@),
{
}

/// The index in a name is the number behind the prefix. Where something else follows the prefix, or
/// the name does not start with it, or the number takes more than 16 bits, there is no index.
pub proof fn law_index_is_the_number_behind_the_prefix(
    prefix: Seq<char>,
    rest: Seq<char>,
    i: nat,
    name: Seq<char>,
)
    ensures
        index_after(prefix + digits(i), prefix) == (if i <= 65535 {
            Some(i)
        } else {
            None
        }),
        rest.len() == 0 ==> index_after(prefix + rest, prefix) is None,
        (exists|k: int| 1 <= k < rest.len() && !('0' <= #[trigger] rest[k] <= '9')) ==> index_after(
            prefix + rest,
            prefix,
        ) is None,
        (rest.len() > 0 && rest[0] != '+' && !('0' <= rest[0] <= '9')) ==> index_after(
            prefix + rest,
            prefix,
        ) is None,
        (forall|tail: Seq<char>| name != #[trigger] (prefix + tail)) ==> index_after(name, prefix)
            is None,
{
    let full = prefix + digits(i);
    assert(full.take(prefix.len() as int) =~= prefix);
    assert(full.skip(prefix.len() as int) =~= digits(i));
    assert(has_prefix(full, prefix));
    let other = prefix + rest;
    assert(other.take(prefix.len() as int) =~= prefix);
    assert(other.skip(prefix.len() as int) =~= rest);
    assert(has_prefix(other, prefix));
    law_read_of_other_texts(rest, i, 65535);
    if i <= 65535 {
        law_read_back(i, 65535);
    }
    if has_prefix(name, prefix) {
        assert(name =~= prefix + name.skip(prefix.len() as int));
    }
}

/// On scale-down the object of a unit is deleted exactly where its index is from the wanted number on
/// and the group is one of its owners: `name` is that of a unit of the group.
pub proof fn law_unit_is_deleted_iff_it_is_beyond_the_scale(
    spus: Seq<KubeObject>,
    group: Seq<char>,
    replicas: u16,
    i: nat,
)
    requires
        i <= 65535,
    ensures
        orphaned_units(spus, group, replicas).contains(group + "-"@ + digits(i)) <==> i >= replicas
            && exists|k: int, o: int|
            #![trigger spus[k].owners@[o]]
            0 <= k < spus.len() && spus[k].name@ == group + "-"@ + digits(i) && 0 <= o
                < spus[k].owners@.len() && spus[k].owners@[o].name@ == group
                && spus[k].owners@[o].kind@ == "SpuGroup"@,
{
    let name = group + "-"@ + digits(i);
    let wanted = |spu: KubeObject| crate::k8::spu_controller::is_orphan(spu, group, replicas);
    let kept = spus.filter(wanted);
    let gone = orphaned_units(spus, group, replicas);
    law_index_is_the_number_behind_the_prefix(group + "-"@, Seq::empty(), i, name);
    assert(beyond_scale(name, group + "-"@, replicas) == (i >= replicas));
    broadcast use vstd::seq_lib::group_filter_ensures;

    if gone.contains(name) {
        let j = choose|j: int| 0 <= j < gone.len() && gone[j] == name;
        lemma_filter_from(spus, wanted, j);
        let k = choose|k: int| 0 <= k < spus.len() && spus[k] == kept[j];
        assert(wanted(spus[k]));
        let o = choose|o: int|
            0 <= o < spus[k].owners@.len() && (#[trigger] spus[k].owners@[o]).name@ == group
                && spus[k].owners@[o].kind@ == "SpuGroup"@;
        assert(spus[k].owners@[o].name@ == group);
    }
    if i >= replicas && exists|k: int, o: int|
        #![trigger spus[k].owners@[o]]
        0 <= k < spus.len() && spus[k].name@ == name && 0 <= o < spus[k].owners@.len()
            && spus[k].owners@[o].name@ == group && spus[k].owners@[o].kind@ == "SpuGroup"@ {
        let (k, o) = choose|k: int, o: int|
            #![trigger spus[k].owners@[o]]
            0 <= k < spus.len() && spus[k].name@ == name && 0 <= o < spus[k].owners@.len()
                && spus[k].owners@[o].name@ == group && spus[k].owners@[o].kind@ == "SpuGroup"@;
        assert(owned_by_group(spus[k].owners@, group));
        assert(wanted(spus[k]));
        assert(spus.contains(spus[k]));
        assert(kept.contains(spus[k]));
        let j = choose|j: int| 0 <= j < kept.len() && kept[j] == spus[k];
        assert(gone[j] == name);
    }
}

/// On scale-down no object is deleted but one whose name starts as those of the group's units do.
pub proof fn law_only_units_of_the_group_are_deleted(
    spus: Seq<KubeObject>,
    group: Seq<char>,
    replicas: u16,
    j: int,
)
    requires
        0 <= j < orphaned_units(spus, group, replicas).len(),
    ensures
        exists|k: int, o: int|
            #![trigger spus[k].owners@[o]]
            0 <= k < spus.len() && spus[k].name@ == orphaned_units(spus, group, replicas)[j] && 0 <= o
                < spus[k].owners@.len() && spus[k].owners@[o].name@ == group
                && spus[k].owners@[o].kind@ == "SpuGroup"@,
        exists|rest: Seq<char>|
            orphaned_units(spus, group, replicas)[j] == #[trigger] (group + "-"@ + rest),
{
    let wanted = |spu: KubeObject| crate::k8::spu_controller::is_orphan(spu, group, replicas);
    let kept = spus.filter(wanted);
    let gone = orphaned_units(spus, group, replicas);
    broadcast use vstd::seq_lib::group_filter_ensures;

    lemma_filter_from(spus, wanted, j);
    let k = choose|k: int| 0 <= k < spus.len() && spus[k] == kept[j];
    assert(wanted(spus[k]));
    let o = choose|o: int|
        0 <= o < spus[k].owners@.len() && (#[trigger] spus[k].owners@[o]).name@ == group
            && spus[k].owners@[o].kind@ == "SpuGroup"@;
    assert(spus[k].owners@[o].name@ == group);
    let prefix = group + "-"@;
    assert(has_prefix(gone[j], prefix));
    assert(gone[j] =~= prefix + gone[j].skip(prefix.len() as int));
}

/// On scale-down the service of a unit is deleted exactly where it is there and the unit's index is
/// from the wanted number on. Whatever else is deleted starts as the services of the group do.
pub proof fn law_service_is_deleted_iff_its_unit_is_beyond_the_scale(
    names: Seq<Seq<char>>,
    group: Seq<char>,
    replicas: u16,
    i: nat,
)
    requires
        i <= 65535,
    ensures
        orphaned_services(names, group, replicas).contains("fluvio-spu-"@ + group + "-"@ + digits(i))
            <==> i >= replicas && names.contains("fluvio-spu-"@ + group + "-"@ + digits(i)),
        forall|j: int|
            0 <= j < orphaned_services(names, group, replicas).len() ==> names.contains(
                #[trigger] orphaned_services(names, group, replicas)[j],
            ) && exists|rest: Seq<char>|
                orphaned_services(names, group, replicas)[j] == #[trigger] ("fluvio-spu-"@ + group
                    + "-"@ + rest),
{
    let prefix = service_prefix(group);
    let name = "fluvio-spu-"@ + group + "-"@ + digits(i);
    let gone = orphaned_services(names, group, replicas);
    law_index_is_the_number_behind_the_prefix(prefix, Seq::empty(), i, name);
    assert(name == prefix + digits(i));
    let left = |n: Seq<char>| beyond_scale(n, prefix, replicas);
    assert(gone == names.filter(left));
    assert(left(name) == (i >= replicas));
    broadcast use vstd::seq_lib::group_filter_ensures;

    assert forall|j: int| 0 <= j < gone.len() implies names.contains(#[trigger] gone[j])
        && exists|rest: Seq<char>|
        gone[j] == #[trigger] ("fluvio-spu-"@ + group + "-"@ + rest) by {
        lemma_filter_from(names, left, j);
        assert(left(gone[j]));
        assert(has_prefix(gone[j], prefix));
        assert(gone[j] =~= "fluvio-spu-"@ + group + "-"@ + gone[j].skip(prefix.len() as int));
    }
}

/// A unit is reached where its service shows it. Where no service does, the controller knows of no
/// port and no address, and the stored group of the usual port alone.
pub proof fn law_unit_is_reached_where_its_service_shows_it(
    models: Map<Seq<char>, PortModel>,
    services: Map<Seq<char>, IngressPort>,
    name: Seq<char>,
)
    ensures
        models.contains_key(name) ==> endpoint_of(models, name) == models[name],
        !models.contains_key(name) ==> endpoint_of(models, name).port == 0 && endpoint_of(
            models,
            name,
        ).ingress.len() == 0 && endpoint_of(models, name).encryption == EncryptionEnum::PLAINTEXT,
        services.contains_key(name) ==> public_endpoint_of(services, name) == services[name]@,
        !services.contains_key(name) ==> public_endpoint_of(services, name).port == 9005
            && public_endpoint_of(services, name).ingress.len() == 0 && public_endpoint_of(
            services,
            name,
        ).encryption == EncryptionEnum::PLAINTEXT,
{
}

/// A stored unit collides with a group exactly where its identifier is from the first up to, but not
/// with, the last and the group is not its owner. The first one that does is the one reported.
pub proof fn law_collision_iff_a_foreign_unit_has_an_identifier(
    spus: Seq<StoredSpu>,
    uid: Seq<char>,
    from: int,
    to: int,
)
    ensures
        first_collision(spus, uid, from, to) is None <==> forall|i: int|
            0 <= i < spus.len() && from <= (#[trigger] spus[i]).id && spus[i].id < to
                ==> spus[i].owner_uid is Some && spus[i].owner_uid->0@ == uid,
        first_collision(spus, uid, from, to) matches Some(id) ==> from <= id < to && exists|i: int|
            {
                &&& 0 <= i < spus.len()
                &&& (#[trigger] spus[i]).id == id
                &&& spus[i].owner_uid is None || spus[i].owner_uid->0@ != uid
                &&& forall|j: int|
                    0 <= j < i && from <= (#[trigger] spus[j]).id && spus[j].id < to
                        ==> spus[j].owner_uid is Some && spus[j].owner_uid->0@ == uid
            },
    decreases spus.len(),
{
    if spus.len() > 0 {
        let rest = spus.skip(1);
        law_collision_iff_a_foreign_unit_has_an_identifier(rest, uid, from, to);
        assert forall|i: int| 0 <= i < rest.len() implies #[trigger] rest[i] == spus[i + 1] by {}
        if crate::k8::spg_group::collides(spus[0], uid, from, to) {
            assert(spus[0].id == first_collision(spus, uid, from, to)->0);
        } else {
            let found = first_collision(rest, uid, from, to);
            if found is None {
                assert forall|i: int|
                    0 <= i < spus.len() && from <= (#[trigger] spus[i]).id && spus[i].id
                        < to implies spus[i].owner_uid is Some && spus[i].owner_uid->0@ == uid by {
                    if i > 0 {
                        assert(rest[i - 1] == spus[i]);
                    }
                }
            } else {
                let i = choose|i: int|
                    {
                        &&& 0 <= i < rest.len()
                        &&& (#[trigger] rest[i]).id == found->0
                        &&& rest[i].owner_uid is None || rest[i].owner_uid->0@ != uid
                        &&& forall|j: int|
                            0 <= j < i && from <= (#[trigger] rest[j]).id && rest[j].id < to
                                ==> rest[j].owner_uid is Some && rest[j].owner_uid->0@ == uid
                    };
                assert(spus[i + 1] == rest[i]);
                assert forall|j: int|
                    0 <= j < i + 1 && from <= (#[trigger] spus[j]).id && spus[j].id
                        < to implies spus[j].owner_uid is Some && spus[j].owner_uid->0@ == uid by {
                    if j > 0 {
                        assert(rest[j - 1] == spus[j]);
                    }
                }
            }
        }
    }
}

/// The units of a group are applied one after the other, each with its own name, and the objects of all
/// units are asked for behind the last.
pub proof fn law_units_are_applied_in_turn(run: SpuRun, index: int, action: SpuAction)
    requires
        0 <= index,
        run.stands_before(index, action),
    ensures
        index < run.replicas ==> run.index == index && run.stage == SpuStage::Applying && (
        action matches SpuAction::Apply { name, .. } && name@ == run.name@ + "-"@ + digits(
            index as nat,
        )),
        index >= run.replicas ==> run.stage == SpuStage::Listing && action is List,
{
}

/// The services of a group's units are applied one after the other, each under the name of its unit,
/// and all services are asked for behind the last.
pub proof fn law_services_are_applied_in_turn(run: ServiceRun, index: int, action: ServiceAction)
    requires
        0 <= index,
        run.stands_before(index, action),
    ensures
        index < run.replicas ==> run.index == index && run.stage == ServiceStage::Applying && (
        action matches ServiceAction::Apply { name, service } && name@ == "fluvio-spu-"@ + run.name@
            + "-"@ + digits(index as nat) && opt_text(service.name) == Some(name@)),
        index >= run.replicas ==> run.stage == ServiceStage::Listing && action is List,
{
    if index < run.replicas {
        assert(spu_service_name(unit_name(run.name@, index as nat)) =~= "fluvio-spu-"@ + run.name@
            + "-"@ + digits(index as nat));
    }
}

} // verus!
