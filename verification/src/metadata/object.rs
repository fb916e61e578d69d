//! Objects as the metadata store holds them.
use vstd::prelude::*;

use crate::json::{Json, JsonTree};
use crate::string_map::{copy_strings, text_items, StringMap};
use crate::text::{copy_texts, texts};

verus! {

/// A reference to the owner of an object.
#[derive(Debug)]
pub struct OwnerReferences {
    pub api_version: String,
    pub kind: String,
    pub name: String,
    pub uid: String,
    pub block_owner_deletion: bool,
}

/// What an object has besides its specification and status.
#[derive(Debug)]
pub struct ObjectMeta {
    pub name: String,
    pub namespace: String,
    pub uid: String,
    pub resource_version: String,
    pub labels: StringMap<String>,
    pub annotations: StringMap<String>,
    pub owner_references: Vec<OwnerReferences>,
    pub finalizers: Vec<String>,
}

/// A stored object. Its specification and status are documents.
#[derive(Debug)]
pub struct K8Obj {
    pub api_version: String,
    pub kind: String,
    pub metadata: ObjectMeta,
    pub spec: Json,
    pub status: Json,
}

/// A reference to an owner, as texts.
pub struct OwnerModel {
    pub api_version: Seq<char>,
    pub kind: Seq<char>,
    pub name: Seq<char>,
    pub uid: Seq<char>,
    pub block_owner_deletion: bool,
}

/// The metadata of an object, as texts.
pub struct MetaModel {
    pub name: Seq<char>,
    pub namespace: Seq<char>,
    pub uid: Seq<char>,
    pub resource_version: Seq<char>,
    pub labels: Seq<(Seq<char>, Seq<char>)>,
    pub annotations: Seq<(Seq<char>, Seq<char>)>,
    pub owner_references: Seq<OwnerModel>,
    pub finalizers: Seq<Seq<char>>,
}

/// A stored object, as texts and trees.
pub struct ObjModel {
    pub api_version: Seq<char>,
    pub kind: Seq<char>,
    pub metadata: MetaModel,
    pub spec: JsonTree,
    pub status: JsonTree,
}

impl View for OwnerReferences {
    type V = OwnerModel;

    open spec fn view(&self) -> OwnerModel {
        OwnerModel {
            api_version: self.api_version@,
            kind: self.kind@,
            name: self.name@,
            uid: self.uid@,
            block_owner_deletion: self.block_owner_deletion,
        }
    }
}

/// The owners of a list, as texts.
pub open spec fn owner_models(list: Seq<OwnerReferences>) -> Seq<OwnerModel> {
    list.map_values(|o: OwnerReferences| o@)
}

impl View for ObjectMeta {
    type V = MetaModel;

    open spec fn view(&self) -> MetaModel {
        MetaModel {
            name: self.name@,
            namespace: self.namespace@,
            uid: self.uid@,
            resource_version: self.resource_version@,
            labels: text_items(self.labels.items()),
            annotations: text_items(self.annotations.items()),
            owner_references: owner_models(self.owner_references@),
            finalizers: texts(self.finalizers@),
        }
    }
}

impl View for K8Obj {
    type V = ObjModel;

    open spec fn view(&self) -> ObjModel {
        ObjModel {
            api_version: self.api_version@,
            kind: self.kind@,
            metadata: self.metadata@,
            spec: self.spec@,
            status: self.status@,
        }
    }
}

impl Clone for OwnerReferences {
    fn clone(&self) -> (r: OwnerReferences)
        ensures
            r@ == self@,
    {
        OwnerReferences {
            api_version: self.api_version.clone(),
            kind: self.kind.clone(),
            name: self.name.clone(),
            uid: self.uid.clone(),
            block_owner_deletion: self.block_owner_deletion,
        }
    }
}

fn copy_owners(list: &Vec<OwnerReferences>) -> (r: Vec<OwnerReferences>)
    ensures
        owner_models(r@) == owner_models(list@),
{
    let mut r: Vec<OwnerReferences> = Vec::new();
    let mut i: usize = 0;
    let ghost all = owner_models(list@);
    assert(owner_models(r@) =~= all.take(0));
    while i < list.len()
        invariant
            i <= list@.len(),
            all == owner_models(list@),
            owner_models(r@) == all.take(i as int),
        decreases list.len() - i,
    {
        let ghost before = owner_models(r@);
        r.push(list[i].clone());
        assert(owner_models(r@) =~= before.push(all[i as int]));
        i += 1;
        assert(owner_models(r@) =~= all.take(i as int));
    }
    assert(all.take(i as int) =~= all);
    r
}

impl Clone for ObjectMeta {
    fn clone(&self) -> (r: ObjectMeta)
        ensures
            r@ == self@,
    {
        ObjectMeta {
            name: self.name.clone(),
            namespace: self.namespace.clone(),
            uid: self.uid.clone(),
            resource_version: self.resource_version.clone(),
            labels: copy_strings(&self.labels),
            annotations: copy_strings(&self.annotations),
            owner_references: copy_owners(&self.owner_references),
            finalizers: copy_texts(&self.finalizers),
        }
    }
}

impl Clone for K8Obj {
    fn clone(&self) -> (r: K8Obj)
        ensures
            r@ == self@,
    {
        K8Obj {
            api_version: self.api_version.clone(),
            kind: self.kind.clone(),
            metadata: self.metadata.clone(),
            spec: self.spec.clone(),
            status: self.status.clone(),
        }
    }
}

/// The metadata of an object of which only the name and the namespace are known.
pub open spec fn named_meta(name: Seq<char>, namespace: Seq<char>) -> MetaModel {
    MetaModel {
        name,
        namespace,
        uid: Seq::empty(),
        resource_version: Seq::empty(),
        labels: Seq::empty(),
        annotations: Seq::empty(),
        owner_references: Seq::empty(),
        finalizers: Seq::empty(),
    }
}

impl ObjectMeta {
    /// The metadata of an object of which only the name and the namespace are known.
    pub fn new(name: &str, namespace: &str) -> (r: ObjectMeta)
        ensures
            r@ == named_meta(name@, namespace@),
    {
        let r = ObjectMeta {
            name: name.to_owned(),
            namespace: namespace.to_owned(),
            uid: String::new(),
            resource_version: String::new(),
            labels: StringMap::new(),
            annotations: StringMap::new(),
            owner_references: Vec::new(),
            finalizers: Vec::new(),
        };
        assert(r@.uid =~= Seq::empty());
        assert(r@.resource_version =~= Seq::empty());
        assert(r@.labels =~= Seq::empty());
        assert(r@.annotations =~= Seq::empty());
        assert(r@.owner_references =~= Seq::empty());
        assert(r@.finalizers =~= Seq::empty());
        r
    }
}

/// The owners of an object are read one by one.
pub proof fn law_owners_are_read_one_by_one(list: Seq<OwnerReferences>)
    ensures
        owner_models(list).len() == list.len(),
        forall|i: int|
            0 <= i < list.len() ==> {
                &&& (#[trigger] owner_models(list)[i]).name == list[i].name@
                &&& owner_models(list)[i].uid == list[i].uid@
                &&& owner_models(list)[i].kind == list[i].kind@
                &&& owner_models(list)[i].api_version == list[i].api_version@
                &&& owner_models(list)[i].block_owner_deletion == list[i].block_owner_deletion
            },
{
}

} // verus!
