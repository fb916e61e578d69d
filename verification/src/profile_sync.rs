//! The profile that follows a cluster on Kubernetes.
use vstd::prelude::*;

use crate::cluster::{
    no_values, FluvioClusterConfig, TlsPolicy, DEFAULT_SPU_RETRY_COUNT,
    DEFAULT_SPU_RETRY_INITIAL_DELAY_MS, DEFAULT_SPU_RETRY_MAX_DELAY_MS,
};
use crate::decimal::{decimal_signed, numeral};
use crate::k8::service::{AddrModel, IngressAddr};
use crate::string_map::StringMap;
use crate::text::{copy_opt_text, opt_text};

verus! {

/// The service under which the controller is reached.
pub const SC_PUBLIC_SERVICE: &'static str = "fluvio-sc-public";

/// The arguments of the command.
#[derive(Debug)]
pub struct K8Opt {
    pub namespace: Option<String>,
    /// The name of the profile, that of the Kubernetes context where it is not given.
    pub name: Option<String>,
    pub tls: TlsPolicy,
}

/// A profile: the name of the cluster it stands for.
#[derive(Debug)]
pub struct Profile {
    pub cluster: String,
}

/// The clusters and profiles of a client.
#[derive(Debug)]
pub struct Config {
    pub current_profile: Option<String>,
    pub clusters: StringMap<FluvioClusterConfig>,
    pub profiles: StringMap<Profile>,
}

/// Whether `after` is what becomes of a cluster that is now reached at `addr`: an entry that was there
/// keeps all but its address and how connections are secured, a new one has the defaults.
pub open spec fn is_retargeted(
    before: Option<FluvioClusterConfig>,
    after: FluvioClusterConfig,
    addr: Seq<char>,
    tls: TlsPolicy,
) -> bool {
    &&& after.endpoint@ == addr
    &&& after.tls == tls
    &&& (match before {
        Some(old) => after == (FluvioClusterConfig {
            endpoint: after.endpoint,
            tls: after.tls,
            ..old
        }),
        None => {
            &&& !after.use_spu_local_address
            &&& after.spu_retry_count == DEFAULT_SPU_RETRY_COUNT
            &&& after.spu_retry_initial_delay_ms == DEFAULT_SPU_RETRY_INITIAL_DELAY_MS
            &&& after.spu_retry_max_delay_ms == DEFAULT_SPU_RETRY_MAX_DELAY_MS
            &&& after.values() == no_values()
            &&& after.client_id is None
        },
    })
}

/// The value of a key, where it has one.
pub open spec fn value_of<V>(map: Map<Seq<char>, V>, key: Seq<char>) -> Option<V> {
    if map.contains_key(key) {
        Some(map[key])
    } else {
        None
    }
}

/// What becomes of a configuration when the cluster and the profile `name` are pointed at `addr` and
/// the profile becomes the current one: all other clusters and profiles stay as they are.
pub open spec fn is_synced(
    before: Config,
    after: Config,
    name: Seq<char>,
    addr: Seq<char>,
    tls: TlsPolicy,
) -> bool {
    &&& opt_text(after.current_profile) == Some(name)
    &&& after.clusters@.contains_key(name)
    &&& is_retargeted(value_of(before.clusters@, name), after.clusters@[name], addr, tls)
    &&& after.clusters@.remove(name) == before.clusters@.remove(name)
    &&& after.profiles@.contains_key(name)
    &&& after.profiles@[name].cluster@ == name
    &&& after.profiles@.remove(name) == before.profiles@.remove(name)
}

impl Config {
    fn point_at(&mut self, name: &str, addr: String, tls: TlsPolicy)
        ensures
            is_synced(*old(self), *final(self), name@, addr@, tls),
    {
        let ghost before = *self;
        let cluster = match self.clusters.remove(name) {
            Some(found) => {
                let mut cluster = found;
                cluster.endpoint = addr;
                cluster.tls = tls;
                cluster
            },
            None => FluvioClusterConfig::new(addr).with_tls(tls),
        };
        self.clusters.insert(name.to_owned(), cluster);
        self.profiles.insert(name.to_owned(), Profile { cluster: name.to_owned() });
        self.current_profile = Some(name.to_owned());
        assert(self.clusters@.remove(name@) =~= before.clusters@.remove(name@));
        assert(self.profiles@.remove(name@) =~= before.profiles@.remove(name@));
    }
}

/// The name of the profile: the one given, or else that of the Kubernetes context.
pub open spec fn chosen_name(given: Option<String>, context: Option<String>) -> Option<Seq<char>> {
    match given {
        Some(n) => Some(n@),
        None => opt_text(context),
    }
}

/// Points the cluster and the profile at the address of the controller, and makes the profile the
/// current one. Without a name, given or from the Kubernetes context, nothing changes.
pub fn set_k8_context(
    config: &mut Config,
    opt: K8Opt,
    context: &Option<String>,
    external_addr: String,
) -> (r: Result<Profile, &'static str>)
    ensures
        (match chosen_name(opt.name, *context) {
            Some(name) => {
                &&& r matches Ok(profile)
                &&& profile.cluster@ == name
                &&& is_synced(*old(config), *final(config), name, external_addr@, opt.tls)
            },
            None => {
                &&& r matches Err(e)
                &&& e@ == "no context found"@
                &&& *final(config) == *old(config)
            },
        }),
{
    let name = match &opt.name {
        Some(given) => given.clone(),
        None => match context {
            Some(c) => c.clone(),
            None => {
                return Err("no context found");
            },
        },
    };
    config.point_at(name.as_str(), external_addr, opt.tls);
    Ok(Profile { cluster: name })
}

/// A port of a service: a number or a name.
#[derive(Debug)]
pub enum IntOrString {
    Int(i32),
    Text(String),
}

/// A port as text.
pub open spec fn port_name(port: IntOrString) -> Seq<char> {
    match port {
        IntOrString::Int(n) => numeral(n as int),
        IntOrString::Text(s) => s@,
    }
}

/// The host name or else the IP address of an ingress.
pub open spec fn host_of(addr: AddrModel) -> Option<Seq<char>> {
    match addr.hostname {
        Some(h) => Some(h),
        None => addr.ip,
    }
}

/// The address of the controller: the host of the first ingress of its service and the target of the
/// first port, where both are known.
pub open spec fn sc_address(
    ingress: Seq<IngressAddr>,
    target_ports: Seq<Option<IntOrString>>,
) -> Option<Seq<char>> {
    if ingress.len() > 0 && target_ports.len() > 0 {
        match (host_of(ingress[0]@), target_ports[0]) {
            (Some(host), Some(port)) => Some(host + ":"@ + port_name(port)),
            _ => None,
        }
    } else {
        None
    }
}

/// The service of the controller: its ingress, and the targets of its ports.
#[derive(Debug)]
pub struct ScService {
    pub ingress: Vec<IngressAddr>,
    pub target_ports: Vec<Option<IntOrString>>,
}

/// Finds out the address of the controller from its service, where it has one.
pub fn discover_fluvio_addr(service: &Option<ScService>) -> (r: Option<String>)
    ensures
        opt_text(r) == (match *service {
            Some(svc) => sc_address(svc.ingress@, svc.target_ports@),
            None => None,
        }),
{
    let svc = match service {
        Some(svc) => svc,
        None => {
            return None;
        },
    };
    if svc.ingress.len() == 0 || svc.target_ports.len() == 0 {
        return None;
    }
    let host = match &svc.ingress[0].hostname {
        Some(h) => Some(h.clone()),
        None => copy_opt_text(&svc.ingress[0].ip),
    };
    let port = match &svc.target_ports[0] {
        Some(IntOrString::Int(n)) => Some(decimal_signed(*n as i64)),
        Some(IntOrString::Text(s)) => Some(s.clone()),
        None => None,
    };
    match (host, port) {
        (Some(h), Some(p)) => Some(h.concat(":").concat(p.as_str())),
        _ => None,
    }
}

/// The address of the controller, or the reason why there is none.
pub fn required_addr(found: Option<String>) -> (r: Result<String, &'static str>)
    ensures
        (match found {
            Some(addr) => r == Ok::<String, &'static str>(addr),
            None => r matches Err(e) && e@ == "fluvio service is not deployed"@,
        }),
{
    match found {
        Some(addr) => Ok(addr),
        None => Err("fluvio service is not deployed"),
    }
}

/// The namespace in which the controller is looked for.
pub fn sc_namespace(namespace: &Option<String>) -> (r: String)
    ensures
        r@ == (match *namespace {
            Some(n) => n@,
            None => "default"@,
        }),
{
    match namespace {
        Some(n) => n.clone(),
        None => "default".to_owned(),
    }
}

/// The current profile, its cluster and its profile are those of the name. The cluster is reached at the
/// address, and keeps what else was known of it; one that was not known has the usual values. No other
/// cluster or profile changes.
pub proof fn law_only_the_named_cluster_changes(
    before: Config,
    after: Config,
    name: Seq<char>,
    addr: Seq<char>,
    tls: TlsPolicy,
    other: Seq<char>,
)
    requires
        is_synced(before, after, name, addr, tls),
        other != name,
    ensures
        after.current_profile is Some && after.current_profile->0@ == name,
        after.profiles@.contains_key(name) && after.profiles@[name].cluster@ == name,
        after.clusters@.contains_key(name),
        after.clusters@[name].endpoint@ == addr,
        after.clusters@[name].tls == tls,
        before.clusters@.contains_key(name) ==> {
            let old = before.clusters@[name];
            let new = after.clusters@[name];
            &&& new.use_spu_local_address == old.use_spu_local_address
            &&& new.spu_retry_count == old.spu_retry_count
            &&& new.spu_retry_initial_delay_ms == old.spu_retry_initial_delay_ms
            &&& new.spu_retry_max_delay_ms == old.spu_retry_max_delay_ms
            &&& new.values() == old.values()
            &&& new.client_id == old.client_id
        },
        !before.clusters@.contains_key(name) ==> {
            let new = after.clusters@[name];
            &&& !new.use_spu_local_address
            &&& new.spu_retry_count == 16
            &&& new.spu_retry_initial_delay_ms == 1000
            &&& new.spu_retry_max_delay_ms == 30000
            &&& new.values().dom() == Set::<Seq<char>>::empty()
            &&& new.client_id is None
        },
        after.clusters@.contains_key(other) == before.clusters@.contains_key(other),
        before.clusters@.contains_key(other) ==> after.clusters@[other] == before.clusters@[other],
        after.profiles@.contains_key(other) == before.profiles@.contains_key(other),
        before.profiles@.contains_key(other) ==> after.profiles@[other] == before.profiles@[other],
{
    assert(after.clusters@.remove(name).contains_key(other) == after.clusters@.contains_key(other));
    assert(before.clusters@.remove(name).contains_key(other) == before.clusters@.contains_key(other));
    assert(after.profiles@.remove(name).contains_key(other) == after.profiles@.contains_key(other));
    assert(before.profiles@.remove(name).contains_key(other) == before.profiles@.contains_key(other));
    assert(before.clusters@.contains_key(other) ==> after.clusters@.remove(name)[other]
        == before.clusters@.remove(name)[other]);
    assert(before.profiles@.contains_key(other) ==> after.profiles@.remove(name)[other]
        == before.profiles@.remove(name)[other]);
    if !before.clusters@.contains_key(name) {
        assert(after.clusters@[name].values().dom() =~= Set::<Seq<char>>::empty());
    }
}

/// The name that is given has precedence over that of the context.
pub proof fn law_given_name_has_precedence(given: Option<String>, context: Option<String>)
    ensures
        given matches Some(n) ==> chosen_name(given, context) == Some(n@),
        given is None && context is Some ==> chosen_name(given, context) == Some(context->0@),
        given is None && context is None ==> chosen_name(given, context) is None,
{
}

/// The controller is reached at the first ingress of its service, by host name where that has one and
/// by IP address otherwise, under the target of the first port. Where one of these is not known there
/// is no address.
pub proof fn law_controller_is_reached_at_its_first_ingress(
    ingress: Seq<IngressAddr>,
    ports: Seq<Option<IntOrString>>,
)
    ensures
        ingress.len() == 0 || ports.len() == 0 ==> sc_address(ingress, ports) is None,
        ingress.len() > 0 && ports.len() > 0 ==> {
            let first = ingress[0];
            let host = if first.hostname is Some {
                Some(first.hostname->0@)
            } else if first.ip is Some {
                Some(first.ip->0@)
            } else {
                None
            };
            &&& host is None || ports[0] is None ==> sc_address(ingress, ports) is None
            &&& host is Some ==> (ports[0] matches Some(IntOrString::Int(n)) ==> sc_address(
                ingress,
                ports,
            ) == Some(host->0 + ":"@ + numeral(n as int)))
            &&& host is Some ==> (ports[0] matches Some(IntOrString::Text(s)) ==> sc_address(
                ingress,
                ports,
            ) == Some(host->0 + ":"@ + s@))
        },
{
}

} // verus!
