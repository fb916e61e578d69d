//! A group of units as the control plane stores it, and the units made from it.
use vstd::prelude::*;

use crate::k8::objects::{SPU_PRIVATE_PORT, SPU_PUBLIC_PORT};
use crate::k8::service::{EncryptionEnum, IngressAddr, IngressPort, PortModel};
use crate::k8::spu_object::{private_host, private_host_of, public_host, public_host_of};
use crate::k8::spu_service::{group_unit_name, unit_name};
use crate::spg_status::{SpuGroupStatus, SpuGroupStatusResolution};
use crate::string_map::StringMap;
use crate::text::text_eq;

verus! {

/// Where a stored object lives in the cluster, and its identity there.
#[derive(Debug)]
pub struct K8MetaItem {
    pub namespace: String,
    pub uid: String,
}

/// A stored object's own place and that of the object that owns it.
#[derive(Debug)]
pub struct MetadataContext {
    pub item: K8MetaItem,
    pub owner: Option<K8MetaItem>,
}

/// An object as the control plane stores it.
#[derive(Debug)]
pub struct MetadataStoreObject<S, T> {
    pub key: String,
    pub spec: S,
    pub status: T,
    pub ctx: MetadataContext,
}

/// How many units a group has, and the identifier of the first one.
#[derive(Debug, Clone, Copy, PartialEq, Eq, Structural)]
pub struct SpuGroupSpec {
    pub replicas: u16,
    pub min_id: i32,
}

impl Default for SpuGroupSpec {
    fn default() -> (s: SpuGroupSpec)
        ensures
            s.replicas == 0,
            s.min_id == 0,
    {
        SpuGroupSpec { replicas: 0, min_id: 0 }
    }
}

impl K8MetaItem {
    pub open spec fn same(self, other: K8MetaItem) -> bool {
        self.namespace@ == other.namespace@ && self.uid@ == other.uid@
    }

    pub fn copy(&self) -> (r: K8MetaItem)
        ensures
            r.same(*self),
    {
        K8MetaItem { namespace: self.namespace.clone(), uid: self.uid.clone() }
    }
}

impl Default for K8MetaItem {
    fn default() -> (r: K8MetaItem)
        ensures
            r.namespace@ == Seq::<char>::empty(),
            r.uid@ == Seq::<char>::empty(),
    {
        K8MetaItem { namespace: String::new(), uid: String::new() }
    }
}

impl MetadataContext {
    pub fn new(item: K8MetaItem) -> (r: MetadataContext)
        ensures
            r.item == item,
            r.owner is None,
    {
        MetadataContext { item, owner: None }
    }

    /// The context of an object that this one owns and that has no place of its own yet.
    pub fn create_child(&self) -> (r: MetadataContext)
        ensures
            r.item.namespace@.len() == 0,
            r.item.uid@.len() == 0,
            r.owner matches Some(owner) && owner.same(self.item),
    {
        MetadataContext { item: K8MetaItem::default(), owner: Some(self.item.copy()) }
    }
}

/// Who runs a unit.
#[derive(Debug, Clone, Copy, PartialEq, Eq, Structural)]
pub enum SpuType {
    Managed,
    Custom,
}

/// A host, a port and how the connection is secured.
#[derive(Debug, PartialEq, Eq)]
pub struct Endpoint {
    pub host: String,
    pub port: u16,
    pub encryption: EncryptionEnum,
}

/// What a unit is to be.
#[derive(Debug)]
pub struct SpuSpec {
    pub id: i32,
    pub spu_type: SpuType,
    pub public_endpoint: IngressPort,
    pub private_endpoint: Endpoint,
    pub rack: Option<String>,
    pub public_endpoint_local: Option<Endpoint>,
}

/// A unit of the store: its identifier and the identity of its owner, where it has one.
#[derive(Debug)]
pub struct StoredSpu {
    pub id: i32,
    pub owner_uid: Option<String>,
}

/// Whether the identifier of a unit that the group `uid` does not own lies from `from` up to `to`.
pub open spec fn collides(spu: StoredSpu, uid: Seq<char>, from: int, to: int) -> bool {
    !(spu.owner_uid matches Some(owner) && owner@ == uid) && from <= spu.id < to
}

/// The identifier of the first unit that collides.
pub open spec fn first_collision(spus: Seq<StoredSpu>, uid: Seq<char>, from: int, to: int) -> Option<
    i32,
>
    decreases spus.len(),
{
    if spus.len() == 0 {
        None
    } else if collides(spus[0], uid, from, to) {
        Some(spus[0].id)
    } else {
        first_collision(spus.skip(1), uid, from, to)
    }
}

/// The identifier of the first of the stored units that a group with the identity `uid` does not
/// own and that lies from `from` up to `to`.
pub fn is_conflict(spus: &Vec<StoredSpu>, uid: &str, from: i32, to: i32) -> (r: Option<i32>)
    ensures
        r == first_collision(spus@, uid@, from as int, to as int),
{
    let mut i: usize = 0;
    assert(spus@.skip(0) =~= spus@);
    while i < spus.len()
        invariant
            i <= spus@.len(),
            first_collision(spus@.skip(i as int), uid@, from as int, to as int) == first_collision(
                spus@,
                uid@,
                from as int,
                to as int,
            ),
        decreases spus.len() - i,
    {
        assert(spus@.skip(i as int)[0] == spus@[i as int]);
        assert(spus@.skip(i as int).skip(1) =~= spus@.skip(i + 1));
        let owned = match &spus[i].owner_uid {
            Some(owner) => text_eq(owner.as_str(), uid),
            None => false,
        };
        let id: i32 = spus[i].id;
        if !owned && id >= from && id < to {
            return Some(id);
        }
        i += 1;
    }
    None
}

/// A group with the name of its headless service.
#[derive(Debug)]
pub struct SpuGroupObj {
    inner: MetadataStoreObject<SpuGroupSpec, SpuGroupStatus>,
    svc_name: String,
}

/// Where a unit is reached: as its service shows it, or else under the usual port alone.
pub open spec fn public_endpoint_of(
    services: Map<Seq<char>, IngressPort>,
    spu_name: Seq<char>,
) -> PortModel {
    if services.contains_key(spu_name) {
        services[spu_name]@
    } else {
        PortModel {
            port: SPU_PUBLIC_PORT,
            ingress: Seq::empty(),
            encryption: EncryptionEnum::PLAINTEXT,
        }
    }
}

/// The identifier of the unit with a given index.
pub fn compute_spu_id(min_id: i32, replica_index: u16) -> (id: i32)
    requires
        min_id + replica_index <= i32::MAX,
    ensures
        id == min_id + replica_index,
{
    replica_index as i32 + min_id
}

impl SpuGroupObj {
    pub closed spec fn group(self) -> MetadataStoreObject<SpuGroupSpec, SpuGroupStatus> {
        self.inner
    }

    pub closed spec fn service(self) -> Seq<char> {
        self.svc_name@
    }

    pub fn new(inner: MetadataStoreObject<SpuGroupSpec, SpuGroupStatus>) -> (r: SpuGroupObj)
        ensures
            r.group() == inner,
            r.service() == "fluvio-spg-"@ + inner.key@,
    {
        let svc_name = "fluvio-spg-".to_owned().concat(inner.key.as_str());
        SpuGroupObj { inner, svc_name }
    }

    /// The stored group.
    pub fn inner(&self) -> (r: &MetadataStoreObject<SpuGroupSpec, SpuGroupStatus>)
        ensures
            *r == self.group(),
    {
        &self.inner
    }

    /// The name of the headless service.
    pub fn svc_name(&self) -> (r: &String)
        ensures
            r@ == self.service(),
    {
        &self.svc_name
    }

    pub fn is_already_valid(&self) -> (r: bool)
        ensures
            r == (self.group().status.resolution == SpuGroupStatusResolution::Reserved),
    {
        self.inner.status.is_already_valid()
    }

    /// The identifier of a stored unit that collides with this group. A group that is valid
    /// already collides with none.
    pub fn is_conflict_with(&self, spus: &Vec<StoredSpu>) -> (r: Option<i32>)
        requires
            self.group().spec.min_id + self.group().spec.replicas <= i32::MAX,
        ensures
            r == (if self.group().status.resolution == SpuGroupStatusResolution::Reserved {
                None
            } else {
                first_collision(
                    spus@,
                    self.group().ctx.item.uid@,
                    self.group().spec.min_id as int,
                    self.group().spec.min_id + self.group().spec.replicas,
                )
            }),
    {
        if self.is_already_valid() {
            return None;
        }
        let min_id: i32 = self.inner.spec.min_id;
        is_conflict(
            spus,
            self.inner.ctx.item.uid.as_str(),
            min_id,
            min_id + self.inner.spec.replicas as i32,
        )
    }

    /// The unit with the index `spu`, and its name.
    pub fn as_spu(&self, spu: u16, services: &StringMap<IngressPort>) -> (r: (
        String,
        MetadataStoreObject<SpuSpec, ()>,
    ))
        requires
            self.group().spec.min_id + spu <= i32::MAX,
        ensures
            ({
                let group = self.group();
                let name = unit_name(group.key@, spu as nat);
                let namespace = group.ctx.item.namespace@;
                let spec = r.1.spec;
                &&& r.0@ == name
                &&& r.1.key@ == name
                &&& spec.id == group.spec.min_id + spu
                &&& spec.spu_type == SpuType::Managed
                &&& spec.public_endpoint@ == public_endpoint_of(services@, name)
                &&& spec.private_endpoint.host@ == private_host(group.key@, spu as nat, namespace)
                &&& spec.private_endpoint.port == SPU_PRIVATE_PORT
                &&& spec.private_endpoint.encryption == EncryptionEnum::PLAINTEXT
                &&& spec.rack is None
                &&& spec.public_endpoint_local matches Some(local)
                &&& local.host@ == public_host(name, namespace)
                &&& local.port == SPU_PUBLIC_PORT
                &&& local.encryption == EncryptionEnum::PLAINTEXT
                &&& r.1.ctx.item.namespace@.len() == 0
                &&& r.1.ctx.item.uid@.len() == 0
                &&& r.1.ctx.owner matches Some(owner)
                &&& owner.same(group.ctx.item)
            }),
    {
        let spu_id: i32 = compute_spu_id(self.inner.spec.min_id, spu);
        let spu_name = group_unit_name(self.inner.key.as_str(), spu);
        let public_endpoint = match services.get(spu_name.as_str()) {
            Some(ingress) => ingress.clone(),
            None => {
                let ingress: Vec<IngressAddr> = Vec::new();
                let p = IngressPort {
                    port: SPU_PUBLIC_PORT,
                    ingress,
                    encryption: EncryptionEnum::PLAINTEXT,
                };
                assert(p@.ingress =~= Seq::empty());
                p
            },
        };
        let namespace = self.inner.ctx.item.namespace.as_str();
        let private_endpoint = Endpoint {
            host: private_host_of(self.inner.key.as_str(), spu, namespace),
            port: SPU_PRIVATE_PORT,
            encryption: EncryptionEnum::PLAINTEXT,
        };
        let local = Endpoint {
            host: public_host_of(spu_name.as_str(), namespace),
            port: SPU_PUBLIC_PORT,
            encryption: EncryptionEnum::PLAINTEXT,
        };
        let spec = SpuSpec {
            id: spu_id,
            spu_type: SpuType::Managed,
            public_endpoint,
            private_endpoint,
            rack: None,
            public_endpoint_local: Some(local),
        };
        (
            spu_name.clone(),
            MetadataStoreObject {
                key: spu_name,
                spec,
                status: (),
                ctx: self.inner.ctx.create_child(),
            },
        )
    }
}

} // verus!
