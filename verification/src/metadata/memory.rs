//! The metadata store of a control plane that runs without a cluster.
use vstd::prelude::*;

use crate::decimal::{decimal, digits, law_digits_distinct};
use crate::json::Json;
use crate::metadata::object::{
    named_meta, K8Obj, MetaModel, ObjModel, ObjectMeta, OwnerModel, OwnerReferences,
};
use crate::string_map::{
    key_index, lemma_key_index, lemma_map_size, map_of, unique_keys, StringMap,
};

verus! {

/// What happened to a stored object.
#[derive(Debug)]
pub enum K8Watch {
    ADDED(K8Obj),
    MODIFIED(K8Obj),
    DELETED(K8Obj),
}

/// What happened to a stored object, as texts and trees.
pub enum WatchModel {
    Added(ObjModel),
    Modified(ObjModel),
    Deleted(ObjModel),
}

impl View for K8Watch {
    type V = WatchModel;

    open spec fn view(&self) -> WatchModel {
        match *self {
            K8Watch::ADDED(o) => WatchModel::Added(o@),
            K8Watch::MODIFIED(o) => WatchModel::Modified(o@),
            K8Watch::DELETED(o) => WatchModel::Deleted(o@),
        }
    }
}

/// The objects of one kind, by name, and the number of writes to them.
#[derive(Debug)]
pub struct TypeStore {
    pub data: StringMap<K8Obj>,
    pub version_counter: u64,
}

/// An object with another version.
pub open spec fn with_version(obj: ObjModel, version: nat) -> ObjModel {
    ObjModel {
        metadata: MetaModel { resource_version: digits(version), ..obj.metadata },
        ..obj
    }
}

/// Stored objects, as texts and trees.
pub open spec fn obj_models(map: Map<Seq<char>, K8Obj>) -> Map<Seq<char>, ObjModel> {
    map.map_values(|o: K8Obj| o@)
}

/// The objects of a list, as texts and trees.
pub open spec fn list_models(list: Seq<K8Obj>) -> Seq<ObjModel> {
    list.map_values(|o: K8Obj| o@)
}

impl TypeStore {
    /// The stored objects by name.
    pub open spec fn objects(self) -> Map<Seq<char>, ObjModel> {
        obj_models(self.data@)
    }

    pub fn new() -> (s: TypeStore)
        ensures
            s.objects() == Map::<Seq<char>, ObjModel>::empty(),
            s.version_counter == 0,
    {
        let s = TypeStore { data: StringMap::new(), version_counter: 0 };
        assert(s.objects() =~= Map::empty());
        s
    }

    /// The version of the latest write.
    pub fn current_version(&self) -> (r: String)
        ensures
            r@ == digits(self.version_counter as nat),
    {
        decimal(self.version_counter)
    }

    /// Stores an object under a new version. The watchers are to be told what is returned: that the
    /// object was modified where one of its name was there, else that it was added.
    pub fn insert_k8_obj(&mut self, key: String, k8_obj: K8Obj) -> (watch: K8Watch)
        requires
            old(self).version_counter < u64::MAX,
        ensures
            final(self).version_counter == old(self).version_counter + 1,
            ({
                let stored = with_version(k8_obj@, final(self).version_counter as nat);
                &&& final(self).objects() == old(self).objects().insert(key@, stored)
                &&& watch@ == (if old(self).objects().contains_key(key@) {
                    WatchModel::Modified(stored)
                } else {
                    WatchModel::Added(stored)
                })
            }),
    {
        let ghost before = self.objects();
        let is_update = self.data.contains_key(key.as_str());
        self.version_counter = self.version_counter + 1;
        let mut obj = k8_obj;
        obj.metadata.resource_version = decimal(self.version_counter);
        let ghost stored = with_version(k8_obj@, self.version_counter as nat);
        assert(obj@ == stored);
        let copy = obj.clone();
        self.data.insert(key, obj);
        assert(self.objects() =~= before.insert(key@, stored));
        if is_update {
            K8Watch::MODIFIED(copy)
        } else {
            K8Watch::ADDED(copy)
        }
    }

    /// Takes an object out of the store. The watchers are to be told what is returned, nothing where
    /// there was no such object.
    pub fn remove_k8_obj(&mut self, key: &str) -> (watch: Option<K8Watch>)
        ensures
            final(self).version_counter == old(self).version_counter,
            final(self).objects() == old(self).objects().remove(key@),
            (match watch {
                Some(w) => old(self).objects().contains_key(key@) && w@ == WatchModel::Deleted(
                    old(self).objects()[key@],
                ),
                None => !old(self).objects().contains_key(key@),
            }),
    {
        let ghost before = self.objects();
        let removed = self.data.remove(key);
        assert(self.objects() =~= before.remove(key@));
        match removed {
            Some(obj) => Some(K8Watch::DELETED(obj)),
            None => None,
        }
    }

    /// All stored objects, each once, and the version of the latest write.
    pub fn list_k8_objs(&self) -> (r: (Vec<K8Obj>, String))
        ensures
            list_models(r.0@) == self.data.items().map_values(|e: (Seq<char>, K8Obj)| e.1@),
            r.1@ == digits(self.version_counter as nat),
    {
        let mut items: Vec<K8Obj> = Vec::new();
        let n: usize = self.data.len();
        let mut i: usize = 0;
        let ghost all = self.data.items().map_values(|e: (Seq<char>, K8Obj)| e.1@);
        assert(list_models(items@) =~= all.take(0));
        while i < n
            invariant
                i <= n,
                n == self.data.items().len(),
                all == self.data.items().map_values(|e: (Seq<char>, K8Obj)| e.1@),
                list_models(items@) == all.take(i as int),
            decreases n - i,
        {
            let ghost before = list_models(items@);
            items.push(self.data.value_at(i).clone());
            assert(list_models(items@) =~= before.push(all[i as int]));
            i += 1;
            assert(list_models(items@) =~= all.take(i as int));
        }
        assert(all.take(i as int) =~= all);
        (items, self.current_version())
    }

    /// Sets the status of a stored object, which is written anew. The object is returned as it was
    /// before it got its new version, with what the watchers are to be told.
    pub fn update_status_k8_obj(&mut self, key: &str, status: Json) -> (r: Result<
        (K8Obj, K8Watch),
        String,
    >)
        requires
            old(self).version_counter < u64::MAX,
        ensures
            (match r {
                Ok((obj, watch)) => {
                    let updated = ObjModel { status: status@, ..old(self).objects()[key@] };
                    let stored = with_version(updated, old(self).version_counter as nat + 1);
                    &&& old(self).objects().contains_key(key@)
                    &&& obj@ == updated
                    &&& watch@ == WatchModel::Modified(stored)
                    &&& final(self).version_counter == old(self).version_counter + 1
                    &&& final(self).objects() == old(self).objects().insert(key@, stored)
                },
                Err(e) => {
                    &&& !old(self).objects().contains_key(key@)
                    &&& e@ == "object not found: "@ + key@
                    &&& *final(self) == *old(self)
                },
            }),
    {
        let mut obj = match self.data.get(key) {
            Some(o) => o.clone(),
            None => {
                return Err("object not found: ".to_owned().concat(key));
            },
        };
        assert(obj@ == self.objects()[key@]);
        obj.status = status;
        let copy = obj.clone();
        let watch = self.insert_k8_obj(key.to_owned(), obj);
        Ok((copy, watch))
    }
}

/// What the store knows of a kind of objects.
#[derive(Debug)]
pub struct ResourceKind {
    /// Under which objects of the kind are kept.
    pub label: String,
    pub api_version: String,
    pub kind: String,
    /// What keeps an object that has an owner from being deleted at once.
    pub finalizer: Option<String>,
    pub owner_api_version: String,
    pub owner_kind: String,
}

/// The owner of an object.
#[derive(Debug)]
pub struct ParentMeta {
    pub name: String,
    pub uid: String,
}

/// The metadata under which an object is applied: its own, with the key for its name, and with the
/// owner and the finalizer of its kind where it has an owner.
pub open spec fn applied_meta(
    meta: MetaModel,
    key: Seq<char>,
    kind: ResourceKind,
    owner: Option<ParentMeta>,
) -> MetaModel {
    let named = MetaModel { name: key, ..meta };
    match owner {
        Some(parent) => MetaModel {
            owner_references: Seq::<OwnerModel>::empty().push(
                OwnerModel {
                    api_version: kind.owner_api_version@,
                    kind: kind.owner_kind@,
                    name: parent.name@,
                    uid: parent.uid@,
                    block_owner_deletion: kind.finalizer is Some,
                },
            ),
            finalizers: match kind.finalizer {
                Some(f) => Seq::<Seq<char>>::empty().push(f@),
                None => named.finalizers,
            },
            ..named
        },
        None => named,
    }
}

fn meta_to_apply(
    meta: &ObjectMeta,
    key: &str,
    kind: &ResourceKind,
    owner: &Option<ParentMeta>,
) -> (r: ObjectMeta)
    ensures
        r@ == applied_meta(meta@, key@, *kind, *owner),
{
    let mut r = meta.clone();
    r.name = key.to_owned();
    if let Some(parent) = owner {
        let mut owners: Vec<OwnerReferences> = Vec::new();
        owners.push(
            OwnerReferences {
                api_version: kind.owner_api_version.clone(),
                kind: kind.owner_kind.clone(),
                name: parent.name.clone(),
                uid: parent.uid.clone(),
                block_owner_deletion: kind.finalizer.is_some(),
            },
        );
        r.owner_references = owners;
        assert(r@.owner_references =~= applied_meta(meta@, key@, *kind, *owner).owner_references);
        if let Some(f) = &kind.finalizer {
            let mut finalizers: Vec<String> = Vec::new();
            finalizers.push(f.clone());
            r.finalizers = finalizers;
            assert(r@.finalizers =~= Seq::empty().push(f@));
        }
    }
    r
}

/// Objects by name, each under its own name.
pub open spec fn named_by_key(objects: Map<Seq<char>, ObjModel>) -> bool {
    forall|name: Seq<char>|
        #![trigger objects.contains_key(name)]
        objects.contains_key(name) ==> objects[name].metadata.name == name
}

/// Whether a list holds all objects and no others, each as often as it is stored.
pub open spec fn is_listing(list: Seq<ObjModel>, objects: Map<Seq<char>, ObjModel>) -> bool {
    &&& list.len() == objects.dom().len()
    &&& forall|o: ObjModel|
        #![trigger list.contains(o)]
        list.contains(o) <==> exists|name: Seq<char>|
            #![trigger objects.contains_key(name)]
            objects.contains_key(name) && objects[name] == o
}

/// The stores of a control plane without a cluster, one for each kind of objects.
#[derive(Debug)]
pub struct InMemoryClient {
    pub stores: StringMap<TypeStore>,
}

/// The store of a kind, an empty one where nothing was stored yet.
pub open spec fn store_objects(stores: Map<Seq<char>, TypeStore>, label: Seq<char>) -> Map<
    Seq<char>,
    ObjModel,
> {
    if stores.contains_key(label) {
        stores[label].objects()
    } else {
        Map::empty()
    }
}

/// The number of writes to the objects of a kind.
pub open spec fn store_version(stores: Map<Seq<char>, TypeStore>, label: Seq<char>) -> u64 {
    if stores.contains_key(label) {
        stores[label].version_counter
    } else {
        0
    }
}

impl InMemoryClient {
    /// The objects of a kind, by name.
    pub open spec fn objects(self, label: Seq<char>) -> Map<Seq<char>, ObjModel> {
        store_objects(self.stores@, label)
    }

    /// The number of writes to the objects of a kind.
    pub open spec fn version(self, label: Seq<char>) -> u64 {
        store_version(self.stores@, label)
    }

    /// What is stored of all kinds but one stays as it is.
    pub open spec fn same_others(self, other: InMemoryClient, label: Seq<char>) -> bool {
        forall|l: Seq<char>|
            l != label ==> #[trigger] self.objects(l) == other.objects(l) && self.version(l)
                == other.version(l)
    }

    /// Every object is stored under its own name.
    pub open spec fn wf(self) -> bool {
        forall|l: Seq<char>| named_by_key(#[trigger] self.objects(l))
    }

    pub fn new() -> (c: InMemoryClient)
        ensures
            c.wf(),
            forall|l: Seq<char>| #[trigger] c.objects(l) == Map::<Seq<char>, ObjModel>::empty(),
            forall|l: Seq<char>| #[trigger] c.version(l) == 0,
    {
        InMemoryClient { stores: StringMap::new() }
    }

    fn take_store(&mut self, label: &str) -> (store: TypeStore)
        ensures
            store.objects() == old(self).objects(label@),
            store.version_counter == old(self).version(label@),
            final(self).stores@ == old(self).stores@.remove(label@),
    {
        match self.stores.remove(label) {
            Some(store) => store,
            None => TypeStore::new(),
        }
    }

    fn put_store(&mut self, label: &str, store: TypeStore)
        ensures
            final(self).stores@ == old(self).stores@.insert(label@, store),
    {
        self.stores.insert(label.to_owned(), store);
    }

    /// Stores an object under its own name.
    pub fn load_k8_obj(&mut self, kind: &ResourceKind, k8_obj: K8Obj) -> (watch: K8Watch)
        requires
            old(self).version(kind.label@) < u64::MAX,
        ensures
            old(self).wf() ==> final(self).wf(),
            final(self).same_others(*old(self), kind.label@),
            final(self).version(kind.label@) == old(self).version(kind.label@) + 1,
            ({
                let name = k8_obj@.metadata.name;
                let stored = with_version(k8_obj@, final(self).version(kind.label@) as nat);
                &&& final(self).objects(kind.label@) == old(self).objects(kind.label@).insert(
                    name,
                    stored,
                )
                &&& watch@ == (if old(self).objects(kind.label@).contains_key(name) {
                    WatchModel::Modified(stored)
                } else {
                    WatchModel::Added(stored)
                })
            }),
    {
        let ghost before = *self;
        let mut store = self.take_store(kind.label.as_str());
        let name = k8_obj.metadata.name.clone();
        let watch = store.insert_k8_obj(name, k8_obj);
        self.put_store(kind.label.as_str(), store);
        proof {
            if before.wf() {
                assert(named_by_key(before.objects(kind.label@)));
                lemma_wf_kept(before, *self, kind.label@);
            }
        }
        watch
    }

    /// All objects of a kind, and the version of the latest write to them.
    pub fn retrieve_items(&self, kind: &ResourceKind) -> (r: (Vec<K8Obj>, String))
        ensures
            is_listing(list_models(r.0@), self.objects(kind.label@)),
            r.1@ == digits(self.version(kind.label@) as nat),
    {
        match self.stores.get(kind.label.as_str()) {
            Some(store) => {
                let r = store.list_k8_objs();
                let n: usize = store.data.len();
                proof {
                    lemma_listed(store.data.items(), list_models(r.0@));
                }
                r
            },
            None => {
                let items: Vec<K8Obj> = Vec::new();
                let version = decimal(0);
                assert(list_models(items@) =~= Seq::empty());
                (items, version)
            },
        }
    }

    /// Deletes an object by name.
    pub fn delete_item(&mut self, kind: &ResourceKind, name: &str) -> (watch: Option<K8Watch>)
        ensures
            old(self).wf() ==> final(self).wf(),
            final(self).same_others(*old(self), kind.label@),
            final(self).version(kind.label@) == old(self).version(kind.label@),
            final(self).objects(kind.label@) == old(self).objects(kind.label@).remove(name@),
            (match watch {
                Some(w) => old(self).objects(kind.label@).contains_key(name@) && w@
                    == WatchModel::Deleted(old(self).objects(kind.label@)[name@]),
                None => !old(self).objects(kind.label@).contains_key(name@),
            }),
    {
        let ghost before = *self;
        let mut store = self.take_store(kind.label.as_str());
        let watch = store.remove_k8_obj(name);
        self.put_store(kind.label.as_str(), store);
        proof {
            if before.wf() {
                assert(named_by_key(before.objects(kind.label@)));
                lemma_wf_kept(before, *self, kind.label@);
            }
        }
        watch
    }

    /// Applies an object under a key. Its status starts anew, from `default_status`.
    pub fn apply(
        &mut self,
        kind: &ResourceKind,
        key: &str,
        meta: &ObjectMeta,
        owner: &Option<ParentMeta>,
        spec: Json,
        default_status: Json,
    ) -> (watch: K8Watch)
        requires
            old(self).version(kind.label@) < u64::MAX,
        ensures
            old(self).wf() ==> final(self).wf(),
            final(self).same_others(*old(self), kind.label@),
            final(self).version(kind.label@) == old(self).version(kind.label@) + 1,
            ({
                let applied = ObjModel {
                    api_version: kind.api_version@,
                    kind: kind.kind@,
                    metadata: applied_meta(meta@, key@, *kind, *owner),
                    spec: spec@,
                    status: default_status@,
                };
                let stored = with_version(applied, final(self).version(kind.label@) as nat);
                &&& final(self).objects(kind.label@) == old(self).objects(kind.label@).insert(
                    key@,
                    stored,
                )
                &&& watch@ == (if old(self).objects(kind.label@).contains_key(key@) {
                    WatchModel::Modified(stored)
                } else {
                    WatchModel::Added(stored)
                })
            }),
    {
        let obj = K8Obj {
            api_version: kind.api_version.clone(),
            kind: kind.kind.clone(),
            metadata: meta_to_apply(meta, key, kind, owner),
            spec,
            status: default_status,
        };
        let ghost before = *self;
        let mut store = self.take_store(kind.label.as_str());
        let watch = store.insert_k8_obj(key.to_owned(), obj);
        self.put_store(kind.label.as_str(), store);
        proof {
            if before.wf() {
                assert(named_by_key(before.objects(kind.label@)));
                lemma_wf_kept(before, *self, kind.label@);
            }
        }
        watch
    }

    /// Sets the specification of an object. One that is not there is made, with the metadata given and
    /// with a status from `default_status`.
    pub fn update_spec(
        &mut self,
        kind: &ResourceKind,
        meta: &ObjectMeta,
        spec: Json,
        default_status: Json,
    ) -> (watch: K8Watch)
        requires
            old(self).version(kind.label@) < u64::MAX,
        ensures
            old(self).wf() ==> final(self).wf(),
            final(self).same_others(*old(self), kind.label@),
            final(self).version(kind.label@) == old(self).version(kind.label@) + 1,
            ({
                let name = meta@.name;
                let before = old(self).objects(kind.label@);
                let updated = if before.contains_key(name) {
                    ObjModel { spec: spec@, ..before[name] }
                } else {
                    ObjModel {
                        api_version: kind.api_version@,
                        kind: kind.kind@,
                        metadata: meta@,
                        spec: spec@,
                        status: default_status@,
                    }
                };
                let stored = with_version(updated, final(self).version(kind.label@) as nat);
                &&& final(self).objects(kind.label@) == before.insert(name, stored)
                &&& watch@ == (if before.contains_key(name) {
                    WatchModel::Modified(stored)
                } else {
                    WatchModel::Added(stored)
                })
            }),
    {
        let ghost before = *self;
        let mut store = self.take_store(kind.label.as_str());
        let obj = match store.data.get(meta.name.as_str()) {
            Some(o) => {
                let mut obj = o.clone();
                assert(obj@ == store.objects()[meta@.name]);
                obj.spec = spec;
                obj
            },
            None => K8Obj {
                api_version: kind.api_version.clone(),
                kind: kind.kind.clone(),
                metadata: meta.clone(),
                spec,
                status: default_status,
            },
        };
        let watch = store.insert_k8_obj(meta.name.clone(), obj);
        self.put_store(kind.label.as_str(), store);
        proof {
            if before.wf() {
                assert(named_by_key(before.objects(kind.label@)));
                lemma_wf_kept(before, *self, kind.label@);
            }
        }
        watch
    }

    /// Sets the status of an object. The object is returned as it was before it got its new version.
    pub fn update_status(&mut self, kind: &ResourceKind, name: &str, status: Json) -> (r: Result<
        (K8Obj, K8Watch),
        String,
    >)
        requires
            old(self).version(kind.label@) < u64::MAX,
        ensures
            old(self).wf() ==> final(self).wf(),
            final(self).same_others(*old(self), kind.label@),
            (match r {
                Ok((obj, watch)) => {
                    let before = old(self).objects(kind.label@);
                    let updated = ObjModel { status: status@, ..before[name@] };
                    let stored = with_version(
                        updated,
                        old(self).version(kind.label@) as nat + 1,
                    );
                    &&& before.contains_key(name@)
                    &&& obj@ == updated
                    &&& watch@ == WatchModel::Modified(stored)
                    &&& final(self).version(kind.label@) == old(self).version(kind.label@) + 1
                    &&& final(self).objects(kind.label@) == before.insert(name@, stored)
                },
                Err(e) => {
                    &&& !old(self).objects(kind.label@).contains_key(name@)
                    &&& e@ == "object not found: "@ + name@
                    &&& final(self).objects(kind.label@) == old(self).objects(kind.label@)
                    &&& final(self).version(kind.label@) == old(self).version(kind.label@)
                },
            }),
    {
        let ghost before = *self;
        let mut store = self.take_store(kind.label.as_str());
        let r = store.update_status_k8_obj(name, status);
        self.put_store(kind.label.as_str(), store);
        proof {
            if before.wf() {
                assert(named_by_key(before.objects(kind.label@)));
                lemma_wf_kept(before, *self, kind.label@);
            }
        }
        r
    }

    /// Deletes an object for good, which needs no more here than to delete it.
    pub fn finalize_delete_item(&mut self, kind: &ResourceKind, name: &str) -> (watch: Option<
        K8Watch,
    >)
        ensures
            old(self).wf() ==> final(self).wf(),
            final(self).same_others(*old(self), kind.label@),
            final(self).version(kind.label@) == old(self).version(kind.label@),
            final(self).objects(kind.label@) == old(self).objects(kind.label@).remove(name@),
            (match watch {
                Some(w) => old(self).objects(kind.label@).contains_key(name@) && w@
                    == WatchModel::Deleted(old(self).objects(kind.label@)[name@]),
                None => !old(self).objects(kind.label@).contains_key(name@),
            }),
    {
        self.delete_item(kind, name)
    }

    /// Sets the specification of an object of which only the key and the namespace are known. One
    /// that is not there is made.
    pub fn update_spec_by_key(
        &mut self,
        kind: &ResourceKind,
        key: &str,
        namespace: &str,
        spec: Json,
        default_status: Json,
    ) -> (watch: K8Watch)
        requires
            old(self).version(kind.label@) < u64::MAX,
        ensures
            old(self).wf() ==> final(self).wf(),
            final(self).same_others(*old(self), kind.label@),
            final(self).version(kind.label@) == old(self).version(kind.label@) + 1,
            ({
                let before = old(self).objects(kind.label@);
                let updated = if before.contains_key(key@) {
                    ObjModel { spec: spec@, ..before[key@] }
                } else {
                    ObjModel {
                        api_version: kind.api_version@,
                        kind: kind.kind@,
                        metadata: named_meta(key@, namespace@),
                        spec: spec@,
                        status: default_status@,
                    }
                };
                let stored = with_version(updated, final(self).version(kind.label@) as nat);
                &&& final(self).objects(kind.label@) == before.insert(key@, stored)
                &&& watch@ == (if before.contains_key(key@) {
                    WatchModel::Modified(stored)
                } else {
                    WatchModel::Added(stored)
                })
            }),
    {
        let meta = ObjectMeta::new(key, namespace);
        self.update_spec(kind, &meta, spec, default_status)
    }

    /// Patches the status of an object, which here is to set it.
    pub fn patch_status(&mut self, kind: &ResourceKind, name: &str, status: Json) -> (r: Result<
        (K8Obj, K8Watch),
        String,
    >)
        requires
            old(self).version(kind.label@) < u64::MAX,
        ensures
            old(self).wf() ==> final(self).wf(),
            final(self).same_others(*old(self), kind.label@),
            (match r {
                Ok((obj, watch)) => {
                    let before = old(self).objects(kind.label@);
                    let updated = ObjModel { status: status@, ..before[name@] };
                    let stored = with_version(
                        updated,
                        old(self).version(kind.label@) as nat + 1,
                    );
                    &&& before.contains_key(name@)
                    &&& obj@ == updated
                    &&& watch@ == WatchModel::Modified(stored)
                    &&& final(self).version(kind.label@) == old(self).version(kind.label@) + 1
                    &&& final(self).objects(kind.label@) == before.insert(name@, stored)
                },
                Err(e) => {
                    &&& !old(self).objects(kind.label@).contains_key(name@)
                    &&& e@ == "object not found: "@ + name@
                    &&& final(self).objects(kind.label@) == old(self).objects(kind.label@)
                    &&& final(self).version(kind.label@) == old(self).version(kind.label@)
                },
            }),
    {
        self.update_status(kind, name, status)
    }
}

/// A client stays well formed where only the objects of one kind changed and those are stored under
/// their own names.
proof fn lemma_wf_kept(before: InMemoryClient, after: InMemoryClient, label: Seq<char>)
    requires
        before.wf(),
        after.same_others(before, label),
        named_by_key(after.objects(label)),
    ensures
        after.wf(),
{
    assert forall|l: Seq<char>| named_by_key(#[trigger] after.objects(l)) by {
        if l != label {
            assert(after.objects(l) == before.objects(l));
        }
    }
}

/// The objects of a list of pairs with different keys are those of its map, each once.
proof fn lemma_listed(items: Seq<(Seq<char>, K8Obj)>, listed: Seq<ObjModel>)
    requires
        unique_keys(items),
        listed == items.map_values(|e: (Seq<char>, K8Obj)| e.1@),
    ensures
        is_listing(listed, obj_models(map_of(items))),
{
    let map = obj_models(map_of(items));
    lemma_map_size(items);
    assert(map.dom() =~= map_of(items).dom());
    assert forall|o: ObjModel|
        #![trigger listed.contains(o)]
        listed.contains(o) <==> exists|name: Seq<char>|
            #![trigger map.contains_key(name)]
            map.contains_key(name) && map[name] == o by {
        if listed.contains(o) {
            let i = choose|i: int| 0 <= i < listed.len() && listed[i] == o;
            lemma_key_index(items, i);
            assert(map.contains_key(items[i].0) && map[items[i].0] == o);
        }
        if exists|name: Seq<char>|
            #![trigger map.contains_key(name)]
            map.contains_key(name) && map[name] == o {
            let name = choose|name: Seq<char>|
                #![trigger map.contains_key(name)]
                map.contains_key(name) && map[name] == o;
            let i = key_index(items, name);
            assert(listed[i] == o);
        }
    }
}

/// An object that was written is found when the objects of its kind are listed.
pub proof fn law_written_object_is_listed(
    objects: Map<Seq<char>, ObjModel>,
    name: Seq<char>,
    stored: ObjModel,
    listed: Seq<ObjModel>,
)
    requires
        is_listing(listed, objects.insert(name, stored)),
    ensures
        listed.contains(stored),
{
    let after = objects.insert(name, stored);
    assert(after.contains_key(name) && after[name] == stored);
}

/// An object that was deleted is not found when the objects of its kind are listed.
pub proof fn law_deleted_object_is_not_listed(
    objects: Map<Seq<char>, ObjModel>,
    name: Seq<char>,
    listed: Seq<ObjModel>,
    i: int,
)
    requires
        named_by_key(objects),
        is_listing(listed, objects.remove(name)),
        0 <= i < listed.len(),
    ensures
        listed[i].metadata.name != name,
{
    let after = objects.remove(name);
    assert(listed.contains(listed[i]));
    let other = choose|other: Seq<char>|
        #![trigger after.contains_key(other)]
        after.contains_key(other) && after[other] == listed[i];
    assert(objects.contains_key(other));
}

/// Deleting an object that was not there before it was stored leaves the store as it was.
pub proof fn law_delete_undoes_store(
    objects: Map<Seq<char>, ObjModel>,
    name: Seq<char>,
    stored: ObjModel,
)
    requires
        !objects.contains_key(name),
    ensures
        objects.insert(name, stored).remove(name) == objects,
{
    assert(objects.insert(name, stored).remove(name) =~= objects);
}

/// A write changes the version of an object, to the number of the write, and nothing else of it.
pub proof fn law_write_changes_the_version_alone(obj: ObjModel, version: nat)
    ensures
        with_version(obj, version).metadata.resource_version == digits(version),
        with_version(obj, version).api_version == obj.api_version,
        with_version(obj, version).kind == obj.kind,
        with_version(obj, version).spec == obj.spec,
        with_version(obj, version).status == obj.status,
        with_version(obj, version).metadata.name == obj.metadata.name,
        with_version(obj, version).metadata.namespace == obj.metadata.namespace,
        with_version(obj, version).metadata.uid == obj.metadata.uid,
        with_version(obj, version).metadata.labels == obj.metadata.labels,
        with_version(obj, version).metadata.annotations == obj.metadata.annotations,
        with_version(obj, version).metadata.owner_references == obj.metadata.owner_references,
        with_version(obj, version).metadata.finalizers == obj.metadata.finalizers,
{
}

/// An applied object has the key for its name and keeps what else it has. Where it has an owner, that
/// is the only one, of the kind's kind of owners, and the finalizer of the kind, where there is one,
/// is the only finalizer and keeps the owner from going first.
pub proof fn law_applied_object_belongs_to_its_owner(
    meta: MetaModel,
    key: Seq<char>,
    kind: ResourceKind,
    owner: Option<ParentMeta>,
)
    ensures
        ({
            let applied = applied_meta(meta, key, kind, owner);
            &&& applied.name == key
            &&& applied.namespace == meta.namespace && applied.uid == meta.uid
            &&& applied.resource_version == meta.resource_version
            &&& applied.labels == meta.labels && applied.annotations == meta.annotations
            &&& owner is None ==> applied.owner_references == meta.owner_references
                && applied.finalizers == meta.finalizers
            &&& owner matches Some(parent) ==> {
                &&& applied.owner_references.len() == 1
                &&& applied.owner_references[0].name == parent.name@
                &&& applied.owner_references[0].uid == parent.uid@
                &&& applied.owner_references[0].kind == kind.owner_kind@
                &&& applied.owner_references[0].api_version == kind.owner_api_version@
                &&& applied.owner_references[0].block_owner_deletion <==> kind.finalizer is Some
                &&& kind.finalizer matches Some(f) ==> applied.finalizers == seq![f@]
                &&& kind.finalizer is None ==> applied.finalizers == meta.finalizers
            }
        }),
{
    if let Some(f) = kind.finalizer {
        assert(Seq::<Seq<char>>::empty().push(f@) =~= seq![f@]);
    }
}

/// An object that is made from its key and namespace has these, and nothing else.
pub proof fn law_object_made_from_its_key(key: Seq<char>, namespace: Seq<char>)
    ensures
        named_meta(key, namespace).name == key,
        named_meta(key, namespace).namespace == namespace,
        named_meta(key, namespace).uid.len() == 0,
        named_meta(key, namespace).resource_version.len() == 0,
        named_meta(key, namespace).labels.len() == 0,
        named_meta(key, namespace).annotations.len() == 0,
        named_meta(key, namespace).owner_references.len() == 0,
        named_meta(key, namespace).finalizers.len() == 0,
{
}

/// A list of the objects of a kind holds each object that is stored, and no other, and is as long as
/// there are objects.
pub proof fn law_list_holds_what_is_stored(
    objects: Map<Seq<char>, ObjModel>,
    listed: Seq<ObjModel>,
    name: Seq<char>,
    i: int,
)
    requires
        is_listing(listed, objects),
    ensures
        objects.contains_key(name) ==> listed.contains(objects[name]),
        0 <= i < listed.len() ==> exists|other: Seq<char>| #[trigger]
            objects.contains_key(other) && objects[other] == listed[i],
        listed.len() == objects.dom().len(),
{
    if objects.contains_key(name) {
        assert(objects.contains_key(name) && objects[name] == objects[name]);
    }
    if 0 <= i < listed.len() {
        assert(listed.contains(listed[i]));
    }
}

/// The objects of a list are read one by one, and those of a map under their keys.
pub proof fn law_objects_are_read_one_by_one(list: Seq<K8Obj>, map: Map<Seq<char>, K8Obj>, key: Seq<
    char,
>)
    ensures
        list_models(list).len() == list.len(),
        forall|i: int| 0 <= i < list.len() ==> #[trigger] list_models(list)[i] == list[i]@,
        obj_models(map).contains_key(key) == map.contains_key(key),
        map.contains_key(key) ==> obj_models(map)[key] == map[key]@,
{
}

/// What is stored of one kind is the store of that kind, whatever is stored of others; a kind of which
/// nothing was stored yet has no objects, and no write.
pub proof fn law_kinds_are_kept_apart(
    stores: Map<Seq<char>, TypeStore>,
    a: Seq<char>,
    b: Seq<char>,
    store: TypeStore,
)
    ensures
        store_objects(stores.insert(a, store), a) == store.objects(),
        store_version(stores.insert(a, store), a) == store.version_counter,
        a != b ==> store_objects(stores.insert(a, store), b) == store_objects(stores, b),
        a != b ==> store_version(stores.insert(a, store), b) == store_version(stores, b),
        store_objects(stores.remove(a), a) == Map::<Seq<char>, ObjModel>::empty(),
        store_version(stores.remove(a), a) == 0,
{
}

/// No two writes give the same version.
pub proof fn law_versions_differ(a: ObjModel, b: ObjModel, m: nat, n: nat)
    requires
        m != n,
    ensures
        with_version(a, m).metadata.resource_version != with_version(b, n).metadata.resource_version,
{
    law_digits_distinct(m, n);
}

} // verus!
