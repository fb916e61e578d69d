//! The documents with which metadata objects are kept in the cluster.
use vstd::prelude::*;

use crate::json::{
    find_member, law_member_is_read_back, law_strings_are_read_back, lemma_find_none,
    lemma_find_push, no_items, no_members, string_members, with_member, Items, Json, JsonTree,
    Members,
};
use crate::metadata::memory::{ParentMeta, ResourceKind};
use crate::string_map::{unique_keys, StringMap};
use crate::text::text_eq;

verus! {

/// Which part of the cluster is looked at.
#[derive(Debug)]
pub enum NameSpace {
    All,
    Named(String),
}

impl NameSpace {
    /// Whether objects of more than one namespace can turn up.
    pub fn is_multi(&self) -> (r: bool)
        ensures
            r == (*self is All),
    {
        match self {
            NameSpace::All => true,
            NameSpace::Named(_) => false,
        }
    }
}

/// The name of an API group as the cluster's own interface has it: the core group has none.
pub open spec fn api_group_name(group: Seq<char>) -> Seq<char> {
    if group == "core"@ {
        Seq::empty()
    } else {
        group
    }
}

pub fn api_group(group: &str) -> (r: String)
    ensures
        r@ == api_group_name(group@),
{
    if text_eq(group, "core") {
        let r = String::new();
        assert(r@ =~= Seq::empty());
        r
    } else {
        group.to_owned()
    }
}

/// The reference to the owner of an object of a kind.
pub open spec fn owner_document(kind: ResourceKind, parent: ParentMeta) -> JsonTree {
    JsonTree::Array(
        no_items().push(
            JsonTree::Object(
                no_members().push(("apiVersion"@, JsonTree::Text(kind.owner_api_version@))).push(
                    ("kind"@, JsonTree::Text(kind.owner_kind@)),
                ).push(("name"@, JsonTree::Text(parent.name@))).push(
                    ("uid"@, JsonTree::Text(parent.uid@)),
                ).push(("blockOwnerDeletion"@, JsonTree::Bool(kind.finalizer is Some))),
            ),
        ),
    )
}

fn build_owner(kind: &ResourceKind, parent: &ParentMeta) -> (j: Json)
    ensures
        j@ == owner_document(*kind, *parent),
{
    let owner = Members::new().with(
        "apiVersion",
        Json::text(kind.owner_api_version.as_str()),
    ).with("kind", Json::text(kind.owner_kind.as_str())).with(
        "name",
        Json::text(parent.name.as_str()),
    ).with("uid", Json::text(parent.uid.as_str())).with(
        "blockOwnerDeletion",
        Json::boolean(kind.finalizer.is_some()),
    ).into_object();
    Items::new().with(owner).into_array()
}

/// A document with the pairs of a map under `key`, where there are any.
pub open spec fn with_strings(
    tree: JsonTree,
    key: Seq<char>,
    items: Seq<(Seq<char>, String)>,
) -> JsonTree {
    if items.len() > 0 {
        with_member(tree, key, JsonTree::Object(string_members(items)))
    } else {
        tree
    }
}

/// The metadata under which an object is applied: the given one, with the key for its name, the
/// labels and annotations that it has, and the owner and finalizer of its kind where it has an
/// owner.
pub open spec fn metadata_document(
    metadata: JsonTree,
    key: Seq<char>,
    labels: Seq<(Seq<char>, String)>,
    annotations: Seq<(Seq<char>, String)>,
    kind: ResourceKind,
    owner: Option<ParentMeta>,
) -> JsonTree {
    let named = with_member(metadata, "name"@, JsonTree::Text(key));
    let marked = with_strings(
        with_strings(named, "labels"@, labels),
        "annotations"@,
        annotations,
    );
    match owner {
        Some(parent) => {
            let owned = with_member(marked, "ownerReferences"@, owner_document(kind, parent));
            match kind.finalizer {
                Some(f) => with_member(
                    owned,
                    "finalizers"@,
                    JsonTree::Array(no_items().push(JsonTree::Text(f@))),
                ),
                None => owned,
            }
        },
        None => marked,
    }
}

fn build_metadata(
    metadata: Json,
    key: &str,
    labels: &StringMap<String>,
    annotations: &StringMap<String>,
    kind: &ResourceKind,
    owner: &Option<ParentMeta>,
) -> (j: Json)
    ensures
        j@ == metadata_document(
            metadata@,
            key@,
            labels.items(),
            annotations.items(),
            *kind,
            *owner,
        ),
{
    let mut j = metadata.with_member("name", Json::text(key));
    if !labels.is_empty() {
        j = j.with_member("labels", Json::from_strings(labels));
    }
    if !annotations.is_empty() {
        j = j.with_member("annotations", Json::from_strings(annotations));
    }
    if let Some(parent) = owner {
        j = j.with_member("ownerReferences", build_owner(kind, parent));
        if let Some(f) = &kind.finalizer {
            j = j.with_member(
                "finalizers",
                Items::new().with(Json::text(f.as_str())).into_array(),
            );
        }
    }
    j
}

/// A document of a kind with its metadata and one part more, under `key`.
pub open spec fn kind_document(
    kind: ResourceKind,
    metadata: JsonTree,
    key: Seq<char>,
    part: JsonTree,
) -> JsonTree {
    JsonTree::Object(
        no_members().push(("apiVersion"@, JsonTree::Text(kind.api_version@))).push(
            ("kind"@, JsonTree::Text(kind.kind@)),
        ).push(("metadata"@, metadata)).push((key, part)),
    )
}

fn build_kind_document(kind: &ResourceKind, metadata: Json, key: &str, part: Json) -> (j: Json)
    ensures
        j@ == kind_document(*kind, metadata@, key@, part@),
{
    Members::new().with("apiVersion", Json::text(kind.api_version.as_str())).with(
        "kind",
        Json::text(kind.kind.as_str()),
    ).with("metadata", metadata).with(key, part).into_object()
}

/// The document with which an object is applied.
pub fn apply_document(
    kind: &ResourceKind,
    key: &str,
    metadata: Json,
    labels: &StringMap<String>,
    annotations: &StringMap<String>,
    owner: &Option<ParentMeta>,
    spec: Json,
) -> (j: Json)
    ensures
        j@ == kind_document(
            *kind,
            metadata_document(
                metadata@,
                key@,
                labels.items(),
                annotations.items(),
                *kind,
                *owner,
            ),
            "spec"@,
            spec@,
        ),
{
    let meta = build_metadata(metadata, key, labels, annotations, kind, owner);
    build_kind_document(kind, meta, "spec", spec)
}

/// The name and the namespace of an object.
pub open spec fn place_members(name: Seq<char>, namespace: Seq<char>) -> Seq<
    (Seq<char>, JsonTree),
> {
    no_members().push(("name"@, JsonTree::Text(name))).push(
        ("namespace"@, JsonTree::Text(namespace)),
    )
}

fn build_place(name: &str, namespace: &str) -> (m: Members)
    ensures
        m@ == place_members(name@, namespace@),
{
    Members::new().with("name", Json::text(name)).with("namespace", Json::text(namespace))
}

/// The document with which the specification of an object is set.
pub fn spec_document(kind: &ResourceKind, name: &str, namespace: &str, spec: Json) -> (j: Json)
    ensures
        j@ == kind_document(
            *kind,
            JsonTree::Object(place_members(name@, namespace@)),
            "spec"@,
            spec@,
        ),
{
    build_kind_document(kind, build_place(name, namespace).into_object(), "spec", spec)
}

/// The document with which the status of an object is replaced, if it still has the version given.
pub fn status_document(
    kind: &ResourceKind,
    name: &str,
    namespace: &str,
    resource_version: &str,
    status: Json,
) -> (j: Json)
    ensures
        j@ == kind_document(
            *kind,
            JsonTree::Object(
                place_members(name@, namespace@).push(
                    ("resourceVersion"@, JsonTree::Text(resource_version@)),
                ),
            ),
            "status"@,
            status@,
        ),
{
    let metadata = build_place(name, namespace).with(
        "resourceVersion",
        Json::text(resource_version),
    ).into_object();
    build_kind_document(kind, metadata, "status", status)
}

/// The document with which the status of an object is set, whatever version it has.
pub fn status_patch_document(kind: &ResourceKind, name: &str, namespace: &str, status: Json) -> (j:
    Json)
    ensures
        j@ == kind_document(
            *kind,
            JsonTree::Object(place_members(name@, namespace@)),
            "status"@,
            status@,
        ),
{
    build_kind_document(kind, build_place(name, namespace).into_object(), "status", status)
}

/// The document that takes away all finalizers, so that an object can be deleted.
pub fn finalize_document() -> (j: Json)
    ensures
        j@ == JsonTree::Object(
            no_members().push(
                (
                    "metadata"@,
                    JsonTree::Object(no_members().push(("finalizers"@, JsonTree::Null))),
                ),
            ),
        ),
{
    let metadata = Members::new().with("finalizers", Json::null()).into_object();
    Members::new().with("metadata", metadata).into_object()
}

/// The pairs of a map are read back from under `key`, and what is under other keys stays.
proof fn lemma_strings_found(
    tree: JsonTree,
    key: Seq<char>,
    items: Seq<(Seq<char>, String)>,
    other: Seq<char>,
)
    requires
        tree is Object,
        unique_keys(items),
    ensures
        ({
            let after = with_strings(tree, key, items);
            &&& after is Object
            &&& items.len() == 0 ==> after.get(key) == tree.get(key)
            &&& items.len() > 0 ==> after.get(key) == Some(
                JsonTree::Object(string_members(items)),
            )
            &&& other != key ==> after.get(other) == tree.get(other)
        }),
{
    if items.len() > 0 {
        law_member_is_read_back(tree, key, JsonTree::Object(string_members(items)), other);
    }
}

/// The keys of the metadata of an object differ.
proof fn lemma_metadata_keys()
    ensures
        "name"@.len() == 4,
        "labels"@.len() == 6,
        "annotations"@.len() == 11,
        "ownerReferences"@.len() == 15,
        "finalizers"@.len() == 10 && "apiVersion"@.len() == 10,
        "finalizers"@[0] == 'f' && "apiVersion"@[0] == 'a',
        "kind"@.len() == 4 && "kind"@[0] == 'k',
        "metadata"@.len() == 8,
        "spec"@.len() == 4 && "spec"@[0] == 's',
        "status"@.len() == 6,
{
    reveal_strlit("name");
    reveal_strlit("labels");
    reveal_strlit("annotations");
    reveal_strlit("ownerReferences");
    reveal_strlit("finalizers");
    reveal_strlit("apiVersion");
    reveal_strlit("kind");
    reveal_strlit("metadata");
    reveal_strlit("spec");
    reveal_strlit("status");
}

/// A document of a kind says which kind it is, and holds its metadata and its part.
pub proof fn law_kind_document_is_read_back(
    kind: ResourceKind,
    metadata: JsonTree,
    key: Seq<char>,
    part: JsonTree,
)
    requires
        key == "spec"@ || key == "status"@,
    ensures
        ({
            let document = kind_document(kind, metadata, key, part);
            &&& document.get("apiVersion"@) == Some(JsonTree::Text(kind.api_version@))
            &&& document.get("kind"@) == Some(JsonTree::Text(kind.kind@))
            &&& document.get("metadata"@) == Some(metadata)
            &&& document.get(key) == Some(part)
        }),
{
    broadcast use lemma_find_push, lemma_find_none;

    lemma_metadata_keys();
}

/// What an object is applied with is read back from its document: its specification, its kind, the key
/// under its name, each label and each annotation, whatever else is given, and the owner and the
/// finalizer of its kind where it has an owner. What the given metadata has under other names stays,
/// and so do its labels where none are given, and its annotations where none are given.
pub proof fn law_applied_object_is_read_back(
    metadata: JsonTree,
    key: Seq<char>,
    labels: Seq<(Seq<char>, String)>,
    annotations: Seq<(Seq<char>, String)>,
    kind: ResourceKind,
    owner: Option<ParentMeta>,
    spec: JsonTree,
    name: Seq<char>,
)
    requires
        metadata is Object,
        unique_keys(labels),
        unique_keys(annotations),
    ensures
        ({
            let document = kind_document(
                kind,
                metadata_document(metadata, key, labels, annotations, kind, owner),
                "spec"@,
                spec,
            );
            let found = document.get("metadata"@)->0;
            &&& document.get("spec"@) == Some(spec)
            &&& document.get("apiVersion"@) == Some(JsonTree::Text(kind.api_version@))
            &&& document.get("kind"@) == Some(JsonTree::Text(kind.kind@))
            &&& document.get("metadata"@) is Some
            &&& found.get("name"@) == Some(JsonTree::Text(key))
            &&& forall|i: int|
                0 <= i < labels.len() ==> found.get("labels"@)->0.get((#[trigger] labels[i]).0)
                    == Some(JsonTree::Text(labels[i].1@))
            &&& forall|i: int|
                0 <= i < annotations.len() ==> found.get("annotations"@)->0.get(
                    (#[trigger] annotations[i]).0,
                ) == Some(JsonTree::Text(annotations[i].1@))
            &&& labels.len() > 0 && (forall|i: int|
                0 <= i < labels.len() ==> (#[trigger] labels[i]).0 != name) ==> found.get(
                "labels"@,
            )->0.get(name) is None
            &&& annotations.len() > 0 && (forall|i: int|
                0 <= i < annotations.len() ==> (#[trigger] annotations[i]).0 != name) ==> found.get(
                "annotations"@,
            )->0.get(name) is None
            &&& labels.len() > 0 ==> found.get("labels"@) is Some
            &&& annotations.len() > 0 ==> found.get("annotations"@) is Some
            &&& labels.len() == 0 ==> found.get("labels"@) == metadata.get("labels"@)
            &&& annotations.len() == 0 ==> found.get("annotations"@) == metadata.get(
                "annotations"@,
            )
            &&& name != "name"@ && name != "labels"@ && name != "annotations"@ && name
                != "ownerReferences"@ && name != "finalizers"@ ==> found.get(name) == metadata.get(
                name,
            )
            &&& owner is None ==> found.get("ownerReferences"@) == metadata.get("ownerReferences"@)
            &&& owner is None || kind.finalizer is None ==> found.get("finalizers"@)
                == metadata.get("finalizers"@)
            &&& owner matches Some(parent) ==> {
                &&& found.get("ownerReferences"@) matches Some(JsonTree::Array(owners))
                &&& owners.len() == 1
                &&& owners[0].get("apiVersion"@) == Some(JsonTree::Text(kind.owner_api_version@))
                &&& owners[0].get("kind"@) == Some(JsonTree::Text(kind.owner_kind@))
                &&& owners[0].get("name"@) == Some(JsonTree::Text(parent.name@))
                &&& owners[0].get("uid"@) == Some(JsonTree::Text(parent.uid@))
                &&& owners[0].get("blockOwnerDeletion"@) == Some(
                    JsonTree::Bool(kind.finalizer is Some),
                )
                &&& kind.finalizer matches Some(f) ==> found.get("finalizers"@) == Some(
                    JsonTree::Array(Seq::empty().push(JsonTree::Text(f@))),
                )
            }
        }),
{
    let meta = metadata_document(metadata, key, labels, annotations, kind, owner);
    law_kind_document_is_read_back(kind, meta, "spec"@, spec);
    lemma_metadata_keys();
    let names = set![
        "name"@,
        "labels"@,
        "annotations"@,
        "ownerReferences"@,
        "finalizers"@,
        name,
    ];
    let named = with_member(metadata, "name"@, JsonTree::Text(key));
    let labelled = with_strings(named, "labels"@, labels);
    let marked = with_strings(labelled, "annotations"@, annotations);
    assert forall|other: Seq<char>| names.contains(other) && other != "name"@ implies
        #[trigger] named.get(other) == metadata.get(other) by {
        law_member_is_read_back(metadata, "name"@, JsonTree::Text(key), other);
    }
    law_member_is_read_back(metadata, "name"@, JsonTree::Text(key), name);
    assert forall|other: Seq<char>| names.contains(other) && other != "labels"@ implies
        #[trigger] labelled.get(other) == named.get(other) by {
        lemma_strings_found(named, "labels"@, labels, other);
    }
    lemma_strings_found(named, "labels"@, labels, name);
    assert forall|other: Seq<char>| names.contains(other) && other != "annotations"@ implies
        #[trigger] marked.get(other) == labelled.get(other) by {
        lemma_strings_found(labelled, "annotations"@, annotations, other);
    }
    lemma_strings_found(labelled, "annotations"@, annotations, name);
    if let Some(parent) = owner {
        let reference = owner_document(kind, parent);
        let owned = with_member(marked, "ownerReferences"@, reference);
        lemma_owner_document(kind, parent);
        assert forall|other: Seq<char>|
            names.contains(other) && other != "ownerReferences"@ implies #[trigger] owned.get(other)
            == marked.get(other) by {
            law_member_is_read_back(marked, "ownerReferences"@, reference, other);
        }
        law_member_is_read_back(marked, "ownerReferences"@, reference, name);
        if let Some(f) = kind.finalizer {
            let list = JsonTree::Array(no_items().push(JsonTree::Text(f@)));
            assert forall|other: Seq<char>|
                names.contains(other) && other != "finalizers"@ implies #[trigger] meta.get(other)
                == owned.get(other) by {
                law_member_is_read_back(owned, "finalizers"@, list, other);
            }
            law_member_is_read_back(owned, "finalizers"@, list, name);
        }
    }
    assert forall|other: Seq<char>|
        names.contains(other) && other != "ownerReferences"@ && other
            != "finalizers"@ implies #[trigger] meta.get(other) == marked.get(other) by {}
    assert(names.contains("labels"@) && names.contains("annotations"@) && names.contains("name"@)
        && names.contains("ownerReferences"@) && names.contains("finalizers"@) && names.contains(
        name,
    ));
    assert(meta.get("labels"@) == labelled.get("labels"@));
    assert(meta.get("annotations"@) == marked.get("annotations"@));
    assert(meta.get("name"@) == named.get("name"@));
    assert forall|i: int| 0 <= i < labels.len() implies meta.get("labels"@)->0.get(
        (#[trigger] labels[i]).0,
    ) == Some(JsonTree::Text(labels[i].1@)) by {
        law_strings_are_read_back(labels, labels[i].0);
    }
    assert forall|i: int| 0 <= i < annotations.len() implies meta.get("annotations"@)->0.get(
        (#[trigger] annotations[i]).0,
    ) == Some(JsonTree::Text(annotations[i].1@)) by {
        law_strings_are_read_back(annotations, annotations[i].0);
    }
    law_strings_are_read_back(labels, name);
    law_strings_are_read_back(annotations, name);
}

proof fn lemma_owner_document(kind: ResourceKind, parent: ParentMeta)
    ensures
        ({
            let owners = owner_document(kind, parent)->Array_0;
            &&& owner_document(kind, parent) is Array
            &&& owners.len() == 1
            &&& owners[0].get("apiVersion"@) == Some(JsonTree::Text(kind.owner_api_version@))
            &&& owners[0].get("kind"@) == Some(JsonTree::Text(kind.owner_kind@))
            &&& owners[0].get("name"@) == Some(JsonTree::Text(parent.name@))
            &&& owners[0].get("uid"@) == Some(JsonTree::Text(parent.uid@))
            &&& owners[0].get("blockOwnerDeletion"@) == Some(
                JsonTree::Bool(kind.finalizer is Some),
            )
        }),
{
    broadcast use lemma_find_push, lemma_find_none;

    reveal_strlit("apiVersion");
    reveal_strlit("kind");
    reveal_strlit("name");
    reveal_strlit("uid");
    reveal_strlit("blockOwnerDeletion");
    assert("apiVersion"@.len() == 10 && "kind"@.len() == 4 && "name"@.len() == 4 && "uid"@.len() == 3
        && "blockOwnerDeletion"@.len() == 18);
    assert("kind"@[0] == 'k' && "name"@[0] == 'n');
}

/// The documents with which a specification or a status is set say which object they are about: its
/// kind, its name and its namespace. That which replaces a status says for which version.
pub proof fn law_written_part_is_read_back(
    kind: ResourceKind,
    name: Seq<char>,
    namespace: Seq<char>,
    version: Seq<char>,
    key: Seq<char>,
    part: JsonTree,
)
    requires
        key == "spec"@ || key == "status"@,
    ensures
        ({
            let place = place_members(name, namespace);
            let plain = kind_document(kind, JsonTree::Object(place), key, part);
            let guarded = kind_document(
                kind,
                JsonTree::Object(place.push(("resourceVersion"@, JsonTree::Text(version)))),
                key,
                part,
            );
            &&& plain.get(key) == Some(part) && guarded.get(key) == Some(part)
            &&& plain.get("kind"@) == Some(JsonTree::Text(kind.kind@))
            &&& guarded.get("kind"@) == Some(JsonTree::Text(kind.kind@))
            &&& plain.get("apiVersion"@) == Some(JsonTree::Text(kind.api_version@))
            &&& guarded.get("apiVersion"@) == Some(JsonTree::Text(kind.api_version@))
            &&& plain.get("metadata"@)->0.get("name"@) == Some(JsonTree::Text(name))
            &&& plain.get("metadata"@)->0.get("namespace"@) == Some(JsonTree::Text(namespace))
            &&& plain.get("metadata"@)->0.get("resourceVersion"@) is None
            &&& guarded.get("metadata"@)->0.get("name"@) == Some(JsonTree::Text(name))
            &&& guarded.get("metadata"@)->0.get("namespace"@) == Some(JsonTree::Text(namespace))
            &&& guarded.get("metadata"@)->0.get("resourceVersion"@) == Some(
                JsonTree::Text(version),
            )
        }),
{
    broadcast use lemma_find_push, lemma_find_none;

    let place = place_members(name, namespace);
    let more = place.push(("resourceVersion"@, JsonTree::Text(version)));
    law_kind_document_is_read_back(kind, JsonTree::Object(place), key, part);
    law_kind_document_is_read_back(kind, JsonTree::Object(more), key, part);
    reveal_strlit("name");
    reveal_strlit("namespace");
    reveal_strlit("resourceVersion");
    assert("name"@.len() == 4 && "namespace"@.len() == 9 && "resourceVersion"@.len() == 15);
    assert(find_member(place, "name"@) == Some(JsonTree::Text(name)));
    assert(find_member(place, "namespace"@) == Some(JsonTree::Text(namespace)));
    assert(find_member(place, "resourceVersion"@) is None);
}

/// Objects of the core group are found under a name without a group, and all others under their own.
pub proof fn law_core_group_has_no_name(group: Seq<char>)
    ensures
        api_group_name("core"@).len() == 0,
        group != "core"@ ==> api_group_name(group) == group,
{
}

} // verus!
