use fluvio_control::json::Json;
use fluvio_control::metadata::convert::{
    collect_items, memory_change, watch_change, Converted, LSUpdate, WatchEvent,
};
use fluvio_control::metadata::kube::{
    api_group, apply_document, finalize_document, spec_document, status_document,
    status_patch_document, NameSpace,
};
use fluvio_control::metadata::memory::{InMemoryClient, K8Watch, ParentMeta, ResourceKind};
use fluvio_control::metadata::object::{K8Obj, ObjectMeta};
use fluvio_control::start::{
    create_memory_client, proxy_plan, resolve_namespace, start_plan, RunMode,
};
use fluvio_control::string_map::StringMap;

fn kind() -> ResourceKind {
    ResourceKind {
        label: "Test".to_string(),
        api_version: "test.fluvio.io/v1".to_string(),
        kind: "TestKind".to_string(),
        finalizer: Some("fin".to_string()),
        owner_api_version: "owner/v2".to_string(),
        owner_kind: "OwnerKind".to_string(),
    }
}

fn loose_kind() -> ResourceKind {
    ResourceKind {
        label: "Loose".to_string(),
        finalizer: None,
        ..kind()
    }
}

fn apply(client: &mut InMemoryClient, key: &str, spec: &str) -> K8Watch {
    client.apply(
        &kind(),
        key,
        &ObjectMeta::new(key, "default"),
        &None,
        Json::text(spec),
        Json::text("init"),
    )
}

fn string(json: &Json) -> &str {
    json.as_str().unwrap()
}

fn watched(watch: &K8Watch) -> (&'static str, &K8Obj) {
    match watch {
        K8Watch::ADDED(obj) => ("added", obj),
        K8Watch::MODIFIED(obj) => ("modified", obj),
        K8Watch::DELETED(obj) => ("deleted", obj),
    }
}

#[test]
fn test_apply_and_retrieve() {
    let mut client = InMemoryClient::new();
    let (items, version) = client.retrieve_items(&kind());
    assert!(items.is_empty());
    assert_eq!(version, "0");

    let watch = apply(&mut client, "spec1", "s");
    assert_eq!(watched(&watch).0, "added");

    let (items, version) = client.retrieve_items(&kind());
    assert_eq!(items.len(), 1);
    assert_eq!(version, "1");
    assert_eq!(items[0].metadata.name, "spec1");
    assert_eq!(items[0].metadata.resource_version, "1");
    assert_eq!(items[0].api_version, "test.fluvio.io/v1");
    assert_eq!(items[0].kind, "TestKind");
    assert_eq!(string(&items[0].spec), "s");
    assert_eq!(string(&items[0].status), "init");
    assert!(client.retrieve_items(&loose_kind()).0.is_empty());
}

#[test]
fn test_delete_item() {
    let mut client = InMemoryClient::new();
    apply(&mut client, "spec1", "s");
    assert_eq!(client.retrieve_items(&kind()).0.len(), 1);

    let watch = client.delete_item(&kind(), "spec1").unwrap();
    assert_eq!(watched(&watch).0, "deleted");
    assert_eq!(watched(&watch).1.metadata.resource_version, "1");
    assert!(client.retrieve_items(&kind()).0.is_empty());
    assert!(client.delete_item(&kind(), "spec1").is_none());
    assert!(client.finalize_delete_item(&kind(), "spec1").is_none());
    assert_eq!(client.retrieve_items(&kind()).1, "1");
    apply(&mut client, "spec1", "s");
    assert!(client.finalize_delete_item(&kind(), "spec1").is_some());
    assert!(client.retrieve_items(&kind()).0.is_empty());
}

#[test]
fn test_update_status() {
    let mut client = InMemoryClient::new();
    apply(&mut client, "key", "s");
    let (result, watch) = client
        .update_status(&kind(), "key", Json::text("new status"))
        .unwrap();
    assert_eq!(string(&result.status), "new status");
    assert_eq!(result.metadata.resource_version, "1");
    assert_eq!(watched(&watch).0, "modified");
    assert_eq!(watched(&watch).1.metadata.resource_version, "2");
    assert_eq!(string(&client.retrieve_items(&kind()).0[0].status), "new status");
    client
        .patch_status(&kind(), "key", Json::text("patched"))
        .unwrap();
    assert_eq!(string(&client.retrieve_items(&kind()).0[0].status), "patched");
    assert_eq!(
        client
            .update_status(&kind(), "other", Json::null())
            .unwrap_err(),
        "object not found: other"
    );
    assert_eq!(
        client
            .patch_status(&kind(), "other", Json::null())
            .unwrap_err(),
        "object not found: other"
    );
}

#[test]
fn test_watch_stream() {
    let mut client = InMemoryClient::new();
    let mut watches = vec![];
    watches.push(apply(&mut client, "key", "s"));
    watches.extend(client.delete_item(&kind(), "key"));
    let updates: Vec<LSUpdate<String, String>> = watches
        .iter()
        .filter_map(|watch| {
            let obj = watched(watch).1;
            memory_change::<String, String, ()>(
                watch,
                Converted::Item(string(&obj.spec).to_string()),
                Converted::Item(obj.metadata.name.clone()),
            )
        })
        .collect();
    assert_eq!(updates.len(), 2);
    assert!(matches!(updates[0], LSUpdate::Mod(_)));
    assert!(matches!(updates[1], LSUpdate::Delete(_)));
}

#[test]
fn changes_to_objects_in_memory() {
    let mut client = InMemoryClient::new();
    let added = apply(&mut client, "key", "one");
    let modified = apply(&mut client, "key", "two");
    let deleted = client.delete_item(&kind(), "key").unwrap();
    for watch in [&added, &modified] {
        assert!(matches!(
            memory_change::<u8, u8, &str>(watch, Converted::Item(1), Converted::Skipped),
            Some(LSUpdate::Mod(1))
        ));
        for item in [Converted::Skipped, Converted::Unreadable, Converted::Failed("bad")] {
            assert!(memory_change::<u8, u8, &str>(watch, item, Converted::Item(2)).is_none());
        }
    }
    assert!(matches!(
        memory_change::<u8, u8, &str>(&deleted, Converted::Skipped, Converted::Item(2)),
        Some(LSUpdate::Delete(2))
    ));
    for key in [Converted::Skipped, Converted::Unreadable, Converted::Failed("bad")] {
        assert!(memory_change::<u8, u8, &str>(&deleted, Converted::Item(1), key).is_none());
    }
}

#[test]
fn an_object_applied_twice() {
    let mut client = InMemoryClient::new();
    apply(&mut client, "key", "one");
    client
        .update_status(&kind(), "key", Json::text("up"))
        .unwrap();
    let watch = apply(&mut client, "key", "two");
    assert_eq!(watched(&watch).0, "modified");
    let (items, version) = client.retrieve_items(&kind());
    assert_eq!(items.len(), 1);
    assert_eq!(version, "3");
    assert_eq!(string(&items[0].spec), "two");
    assert_eq!(string(&items[0].status), "init");
}

#[test]
fn owned_objects() {
    let mut client = InMemoryClient::new();
    let parent = Some(ParentMeta {
        name: "p".to_string(),
        uid: "u".to_string(),
    });
    let mut meta = ObjectMeta::new("ignored", "ns");
    meta.finalizers.push("old".to_string());
    for kind in [kind(), loose_kind()] {
        client.apply(&kind, "key", &meta, &parent, Json::null(), Json::null());
    }
    let (items, _) = client.retrieve_items(&kind());
    let owner = &items[0].metadata.owner_references[0];
    assert_eq!(items[0].metadata.name, "key");
    assert_eq!(owner.api_version, "owner/v2");
    assert_eq!(owner.kind, "OwnerKind");
    assert_eq!((owner.name.as_str(), owner.uid.as_str()), ("p", "u"));
    assert!(owner.block_owner_deletion);
    assert_eq!(items[0].metadata.finalizers, vec!["fin".to_string()]);
    let (items, _) = client.retrieve_items(&loose_kind());
    assert!(!items[0].metadata.owner_references[0].block_owner_deletion);
    assert_eq!(items[0].metadata.finalizers, vec!["old".to_string()]);
}

#[test]
fn specifications_are_updated_or_made() {
    let mut client = InMemoryClient::new();
    apply(&mut client, "key", "one");
    client
        .update_status(&kind(), "key", Json::text("up"))
        .unwrap();
    let meta = ObjectMeta::new("key", "elsewhere");
    let watch = client.update_spec(&kind(), &meta, Json::text("two"), Json::text("init"));
    assert_eq!(watched(&watch).0, "modified");
    let obj = watched(&watch).1;
    assert_eq!(obj.metadata.namespace, "default");
    assert_eq!((string(&obj.spec), string(&obj.status)), ("two", "up"));

    let watch = client.update_spec_by_key(
        &kind(),
        "new",
        "elsewhere",
        Json::text("three"),
        Json::text("init"),
    );
    assert_eq!(watched(&watch).0, "added");
    let obj = watched(&watch).1;
    assert_eq!(obj.metadata.namespace, "elsewhere");
    assert_eq!((string(&obj.spec), string(&obj.status)), ("three", "init"));
    assert_eq!(client.retrieve_items(&kind()).0.len(), 2);
}

#[test]
fn a_store_with_topics() {
    let topic = |name: &str, spec: &str| K8Obj {
        api_version: "v".to_string(),
        kind: "Topic".to_string(),
        metadata: ObjectMeta::new(name, "ns"),
        spec: Json::text(spec),
        status: Json::null(),
    };
    let client = create_memory_client(
        &kind(),
        &vec![topic("a", "1"), topic("b", "2"), topic("a", "3")],
    );
    let (items, version) = client.retrieve_items(&kind());
    assert_eq!(version, "3");
    assert_eq!(items.len(), 2);
    let a = items.iter().find(|o| o.metadata.name == "a").unwrap();
    assert_eq!(string(&a.spec), "3");
    assert_eq!(a.metadata.resource_version, "3");
}

#[test]
fn what_becomes_of_a_list() {
    let list = vec![
        Converted::Item(1),
        Converted::Skipped,
        Converted::Unreadable,
        Converted::Item(2),
    ];
    assert_eq!(collect_items::<i32, &str>(list), Ok(vec![1, 2]));
    let list = vec![
        Converted::Item(1),
        Converted::Failed("first"),
        Converted::Failed("second"),
    ];
    assert_eq!(collect_items(list), Err("first"));
}

#[test]
fn what_becomes_of_an_event() {
    let change = |event: WatchEvent<i32, &'static str, ()>| watch_change(event);
    assert!(matches!(
        change(WatchEvent::Apply(Converted::Item(1))),
        Some(LSUpdate::Mod(1))
    ));
    assert!(matches!(
        change(WatchEvent::Delete(Converted::Item("k"))),
        Some(LSUpdate::Delete("k"))
    ));
    assert!(change(WatchEvent::Apply(Converted::Skipped)).is_none());
    assert!(change(WatchEvent::Delete(Converted::Failed(()))).is_none());
    assert!(change(WatchEvent::Init).is_none());
    assert!(change(WatchEvent::Error).is_none());
}

fn keys(json: &Json) -> Vec<&str> {
    match json {
        Json::Object(members) => members.iter().map(|(key, _)| key.as_str()).collect(),
        other => panic!("{other:?}"),
    }
}

#[test]
fn the_document_of_an_applied_object() {
    let metadata = Json::Object(vec![
        ("name".to_string(), Json::text("old")),
        ("namespace".to_string(), Json::text("ns")),
    ]);
    let mut labels = StringMap::new();
    labels.insert("app".to_string(), "x".to_string());
    let parent = Some(ParentMeta {
        name: "p".to_string(),
        uid: "u".to_string(),
    });
    let doc = apply_document(
        &kind(),
        "key",
        metadata,
        &labels,
        &StringMap::new(),
        &parent,
        Json::text("s"),
    );
    assert_eq!(keys(&doc), ["apiVersion", "kind", "metadata", "spec"]);
    let meta = doc.get("metadata").unwrap();
    assert_eq!(
        keys(meta),
        ["name", "namespace", "labels", "ownerReferences", "finalizers"]
    );
    assert_eq!(string(meta.get("name").unwrap()), "key");
    assert_eq!(string(meta.get("labels").unwrap().get("app").unwrap()), "x");
    match meta.get("ownerReferences").unwrap() {
        Json::Array(owners) => {
            assert_eq!(string(owners[0].get("name").unwrap()), "p");
            assert!(matches!(
                owners[0].get("blockOwnerDeletion"),
                Some(Json::Bool(true))
            ));
        }
        other => panic!("{other:?}"),
    }
    let plain = apply_document(
        &kind(),
        "key",
        Json::Object(vec![]),
        &StringMap::new(),
        &StringMap::new(),
        &None,
        Json::null(),
    );
    assert_eq!(keys(plain.get("metadata").unwrap()), ["name"]);
}

#[test]
fn documents_of_changes() {
    let doc = spec_document(&kind(), "n", "ns", Json::text("s"));
    assert_eq!(keys(&doc), ["apiVersion", "kind", "metadata", "spec"]);
    assert_eq!(keys(doc.get("metadata").unwrap()), ["name", "namespace"]);
    let doc = status_document(&kind(), "n", "ns", "7", Json::text("s"));
    assert_eq!(keys(&doc), ["apiVersion", "kind", "metadata", "status"]);
    let meta = doc.get("metadata").unwrap();
    assert_eq!(string(meta.get("resourceVersion").unwrap()), "7");
    let doc = status_patch_document(&kind(), "n", "ns", Json::text("s"));
    assert!(doc.get("metadata").unwrap().get("resourceVersion").is_none());
    let doc = finalize_document();
    assert!(matches!(
        doc.get("metadata").unwrap().get("finalizers"),
        Some(Json::Null)
    ));
}

#[test]
fn groups_and_namespaces() {
    assert_eq!(api_group("core"), "");
    assert_eq!(api_group("apps"), "apps");
    assert!(NameSpace::All.is_multi());
    assert!(!NameSpace::Named("ns".to_string()).is_multi());
}

#[test]
fn how_the_controller_is_started() {
    let local = start_plan(RunMode::Local("/m".to_string()));
    assert_eq!(local.path.as_deref(), Some("/m"));
    assert!(!local.in_memory && !local.operators);
    let read_only = start_plan(RunMode::ReadOnly("/f".to_string()));
    assert_eq!(read_only.path.as_deref(), Some("/f"));
    assert!(read_only.in_memory && !read_only.operators);
    let k8s = start_plan(RunMode::K8s);
    assert!(k8s.path.is_none() && !k8s.in_memory && k8s.operators);
    assert_eq!(resolve_namespace("default".to_string(), "ns"), "ns");
    assert_eq!(resolve_namespace("mine".to_string(), "ns"), "mine");
    let proxy = proxy_plan(Some("a".to_string()), "t".to_string(), None).unwrap();
    assert_eq!((proxy.addr.as_str(), proxy.target.as_str()), ("a", "t"));
    assert!(proxy_plan(None, "t".to_string(), None).is_none());
}
