//! How the controller is started.
use vstd::prelude::*;

use crate::decimal::digits;
use crate::metadata::memory::{with_version, InMemoryClient, ResourceKind};
use crate::metadata::object::{K8Obj, ObjModel};
use crate::text::text_eq;

verus! {

/// The namespace of a configuration that does not name one.
pub const DEFAULT_NAMESPACE: &'static str = "default";

/// Where the controller keeps its metadata.
#[derive(Debug)]
pub enum RunMode {
    /// In a directory.
    Local(String),
    /// In memory, from a file that is only read.
    ReadOnly(String),
    /// In the cluster.
    K8s,
}

/// What is done at the start.
#[derive(Debug)]
pub struct StartPlan {
    /// The directory of the metadata, or the file they are read from.
    pub path: Option<String>,
    /// Whether the metadata are kept in memory.
    pub in_memory: bool,
    /// Whether the cluster is used: its client is made and the operators are run.
    pub operators: bool,
}

/// Plans the start. Operators run only where the metadata are in the cluster.
pub fn start_plan(mode: RunMode) -> (plan: StartPlan)
    ensures
        (match mode {
            RunMode::Local(path) => plan.path == Some(path) && !plan.in_memory && !plan.operators,
            RunMode::ReadOnly(path) => plan.path == Some(path) && plan.in_memory && !plan.operators,
            RunMode::K8s => plan.path is None && !plan.in_memory && plan.operators,
        }),
{
    match mode {
        RunMode::Local(path) => StartPlan { path: Some(path), in_memory: false, operators: false },
        RunMode::ReadOnly(path) => StartPlan { path: Some(path), in_memory: true, operators: false },
        RunMode::K8s => StartPlan { path: None, in_memory: false, operators: true },
    }
}

/// The namespace to work in: that of the cluster's configuration where the controller's own
/// configuration does not name one.
pub fn resolve_namespace(configured: String, from_cluster: &str) -> (r: String)
    ensures
        r@ == (if configured@ == DEFAULT_NAMESPACE@ {
            from_cluster@
        } else {
            configured@
        }),
{
    if text_eq(configured.as_str(), DEFAULT_NAMESPACE) {
        from_cluster.to_owned()
    } else {
        configured
    }
}

/// The proxy that takes secured connections.
#[derive(Debug)]
pub struct ProxyPlan {
    /// Where the proxy listens.
    pub addr: String,
    /// Where it passes connections on to.
    pub target: String,
    /// The file that says what a certificate allows, where certificates are looked at.
    pub auth_scopes: Option<String>,
}

/// Plans the proxy. There is none where connections are not secured.
pub fn proxy_plan(addr: Option<String>, target: String, auth_scopes: Option<String>) -> (r: Option<
    ProxyPlan,
>)
    ensures
        (match addr {
            Some(a) => r == Some(ProxyPlan { addr: a, target, auth_scopes }),
            None => r is None,
        }),
{
    match addr {
        Some(a) => Some(ProxyPlan { addr: a, target, auth_scopes }),
        None => None,
    }
}

/// The objects after the first `n` of some topics were stored, one after the other.
pub open spec fn stored_topics(topics: Seq<K8Obj>, n: nat) -> Map<Seq<char>, ObjModel>
    decreases n,
{
    if n == 0 {
        Map::empty()
    } else {
        stored_topics(topics, (n - 1) as nat).insert(
            topics[n - 1]@.metadata.name,
            with_version(topics[n - 1]@, n),
        )
    }
}

/// Makes a store in memory with some topics in it.
pub fn create_memory_client(kind: &ResourceKind, topics: &Vec<K8Obj>) -> (client: InMemoryClient)
    ensures
        client.wf(),
        client.version(kind.label@) == topics@.len(),
        client.objects(kind.label@) == stored_topics(topics@, topics@.len()),
        forall|l: Seq<char>|
            l != kind.label@ ==> #[trigger] client.objects(l) == Map::<
                Seq<char>,
                ObjModel,
            >::empty(),
{
    let mut client = InMemoryClient::new();
    let mut i: usize = 0;
    while i < topics.len()
        invariant
            i <= topics@.len(),
            client.wf(),
            client.version(kind.label@) == i,
            client.objects(kind.label@) == stored_topics(topics@, i as nat),
            forall|l: Seq<char>|
                l != kind.label@ ==> #[trigger] client.objects(l) == Map::<
                    Seq<char>,
                    ObjModel,
                >::empty(),
        decreases topics.len() - i,
    {
        let ghost before = client;
        client.load_k8_obj(kind, topics[i].clone());
        assert forall|l: Seq<char>| l != kind.label@ implies #[trigger] client.objects(l) == Map::<
            Seq<char>,
            ObjModel,
        >::empty() by {
            assert(client.objects(l) == before.objects(l));
        }
        i += 1;
    }
    client
}

/// The last topic of a name is the one that is stored under it, with its place in the list for its
/// version. Nothing is stored under a name that no topic has.
pub proof fn law_last_topic_of_a_name_is_stored(topics: Seq<K8Obj>, i: int, name: Seq<char>)
    requires
        0 <= i < topics.len(),
        forall|j: int|
            i < j < topics.len() ==> (#[trigger] topics[j]).metadata.name@ != topics[i].metadata.name@,
        forall|j: int| 0 <= j < topics.len() ==> (#[trigger] topics[j]).metadata.name@ != name,
    ensures
        ({
            let stored = stored_topics(topics, topics.len());
            let key = topics[i].metadata.name@;
            &&& stored.contains_key(key)
            &&& stored[key].spec == topics[i].spec@
            &&& stored[key].status == topics[i].status@
            &&& stored[key].metadata.name == key
            &&& stored[key].metadata.resource_version == digits((i + 1) as nat)
            &&& !stored.contains_key(name)
        }),
{
    lemma_stored_topic(topics, i, topics.len());
    lemma_not_stored(topics, name, topics.len());
}

proof fn lemma_stored_topic(topics: Seq<K8Obj>, i: int, n: nat)
    requires
        0 <= i < n <= topics.len(),
        forall|j: int|
            i < j < n ==> (#[trigger] topics[j]).metadata.name@ != topics[i].metadata.name@,
    ensures
        stored_topics(topics, n).contains_key(topics[i].metadata.name@),
        stored_topics(topics, n)[topics[i].metadata.name@] == with_version(topics[i]@, (i + 1) as nat),
    decreases n,
{
    if i < n - 1 {
        lemma_stored_topic(topics, i, (n - 1) as nat);
    }
}

proof fn lemma_not_stored(topics: Seq<K8Obj>, name: Seq<char>, n: nat)
    requires
        n <= topics.len(),
        forall|j: int| 0 <= j < n ==> (#[trigger] topics[j]).metadata.name@ != name,
    ensures
        !stored_topics(topics, n).contains_key(name),
    decreases n,
{
    if n > 0 {
        lemma_not_stored(topics, name, (n - 1) as nat);
    }
}

} // verus!
