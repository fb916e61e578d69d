//! The configuration with which a client connects to a cluster.
use std::time::Duration;

use vstd::prelude::*;

use crate::decimal::{
    digits, law_read_back, law_read_of_other_texts, parse_unsigned, read_unsigned,
};
use crate::text::{
    eq_ignore_case, law_case_does_not_matter, opt_text, same_ignoring_case, text_eq,
};

verus! {

#[verifier::external_type_specification]
#[verifier::external_body]
#[verifier::reject_recursive_types(K)]
#[verifier::reject_recursive_types(V)]
pub struct ExTomlMap<K, V>(toml::map::Map<K, V>);

#[verifier::external_type_specification]
#[verifier::external_body]
pub struct ExTomlValue(toml::Value);

/// The values of a table, by their names.
pub uninterp spec fn table_values(table: toml::Table) -> Map<Seq<char>, toml::Value>;

/// The length of a span in nanoseconds.
pub uninterp spec fn nanos(span: Duration) -> nat;

/// Whether a span is as long as a number of milliseconds.
pub open spec fn is_millis(span: Duration, n: u64) -> bool {
    nanos(span) == n * 1_000_000
}

/// No names and no values.
pub open spec fn no_values() -> Map<Seq<char>, toml::Value> {
    Map::empty()
}

/// Calls `toml::Table::new`. Claims that the new table is empty.
#[verifier::external_body]
fn new_table() -> (table: toml::Table)
    ensures
        table_values(table) == no_values(),
{
    toml::Table::new()
}

/// Calls `get` on a `toml::Table`. Claims that it gives the value of the name, and nothing where the
/// name has none.
#[verifier::external_body]
fn get_value<'a>(table: &'a toml::Table, name: &str) -> (r: Option<&'a toml::Value>)
    ensures
        r is Some <==> table_values(*table).contains_key(name@),
        r matches Some(v) ==> *v == table_values(*table)[name@],
{
    table.get(name)
}

/// Calls `insert` on a `toml::Table`. Claims that the name has this value afterwards and that all
/// other names keep theirs.
#[verifier::external_body]
fn insert_value(table: &mut toml::Table, name: String, value: toml::Value)
    ensures
        table_values(*final(table)) == table_values(*old(table)).insert(name@, value),
{
    table.insert(name, value);
}

/// Calls `std::time::Duration::from_millis`. Claims that the span is as long as the number of
/// milliseconds.
#[verifier::external_body]
fn from_millis(n: u64) -> (d: Duration)
    ensures
        nanos(d) == n * 1_000_000,
{
    Duration::from_millis(n)
}

/// How often a lost connection to a unit is tried again.
pub const DEFAULT_SPU_RETRY_COUNT: u32 = 16;

/// Milliseconds before the first try.
pub const DEFAULT_SPU_RETRY_INITIAL_DELAY_MS: u64 = 1000;

/// Most milliseconds between two tries.
pub const DEFAULT_SPU_RETRY_MAX_DELAY_MS: u64 = 30000;

/// How a lost connection to a unit is tried again.
#[derive(Debug, PartialEq, Eq)]
pub struct SpuRetryConfig {
    pub retry_count: u32,
    pub initial_delay: Duration,
    pub max_delay: Duration,
}

impl Clone for SpuRetryConfig {
    fn clone(&self) -> (r: SpuRetryConfig)
        ensures
            r == *self,
    {
        SpuRetryConfig {
            retry_count: self.retry_count,
            initial_delay: self.initial_delay,
            max_delay: self.max_delay,
        }
    }
}

impl SpuRetryConfig {
    pub open spec fn is_default(self) -> bool {
        &&& self.retry_count == DEFAULT_SPU_RETRY_COUNT
        &&& is_millis(self.initial_delay, DEFAULT_SPU_RETRY_INITIAL_DELAY_MS)
        &&& is_millis(self.max_delay, DEFAULT_SPU_RETRY_MAX_DELAY_MS)
    }

    /// Whether this is how a lost connection to a unit is tried again under `config`.
    pub open spec fn is_retry_of(self, config: FluvioClusterConfig) -> bool {
        &&& self.retry_count == config.spu_retry_count
        &&& is_millis(self.initial_delay, config.spu_retry_initial_delay_ms)
        &&& is_millis(self.max_delay, config.spu_retry_max_delay_ms)
    }
}

impl Default for SpuRetryConfig {
    fn default() -> (r: SpuRetryConfig)
        ensures
            r.is_default(),
    {
        SpuRetryConfig {
            retry_count: DEFAULT_SPU_RETRY_COUNT,
            initial_delay: from_millis(DEFAULT_SPU_RETRY_INITIAL_DELAY_MS),
            max_delay: from_millis(DEFAULT_SPU_RETRY_MAX_DELAY_MS),
        }
    }
}

/// How a lost connection to a unit is tried again: as was published when a configuration was loaded,
/// else in the default way.
pub fn spu_retry_config(published: &Option<SpuRetryConfig>) -> (r: SpuRetryConfig)
    ensures
        (match *published {
            Some(config) => r == config,
            None => r.is_default(),
        }),
{
    match published {
        Some(config) => config.clone(),
        None => SpuRetryConfig::default(),
    }
}

/// Where the certificates for a connection come from.
#[derive(Debug, PartialEq, Eq)]
pub enum TlsSource {
    /// The certificates themselves.
    Inline { domain: String, key: String, cert: String, ca_cert: String },
    /// The paths of files that hold them.
    Files { domain: String, key: String, cert: String, ca_cert: String },
}

/// Whether and how connections are secured.
#[derive(Debug, PartialEq, Eq)]
pub enum TlsPolicy {
    Disabled,
    /// The server is not asked who it is.
    Anonymous,
    Verified(TlsSource),
}

/// The configuration of a connection to a cluster.
#[derive(Debug)]
#[non_exhaustive]
pub struct FluvioClusterConfig {
    /// The address of the cluster.
    pub endpoint: String,
    /// Whether units are reached under their local addresses.
    pub use_spu_local_address: bool,
    pub tls: TlsPolicy,
    /// How often a lost connection to a unit is tried again.
    pub spu_retry_count: u32,
    /// Milliseconds before the first try.
    pub spu_retry_initial_delay_ms: u64,
    /// Most milliseconds between two tries.
    pub spu_retry_max_delay_ms: u64,
    /// Custom values that the profile keeps for the cluster.
    pub metadata: toml::Table,
    /// A name for the client, which is not kept.
    pub client_id: Option<String>,
}

pub type FluvioConfig = FluvioClusterConfig;

/// What a profile says of a cluster.
#[derive(Debug)]
pub struct ClusterFields {
    pub endpoint: String,
    pub use_spu_local_address: Option<bool>,
    pub tls: Option<TlsPolicy>,
    pub spu_retry_count: Option<u32>,
    pub spu_retry_initial_delay_ms: Option<u64>,
    pub spu_retry_max_delay_ms: Option<u64>,
    pub metadata: Option<toml::Table>,
}

/// The values of environment variables that have precedence over a profile.
#[derive(Debug)]
pub struct EnvOverrides {
    /// `FLUVIO_SPU_LOCAL`
    pub spu_local: Option<String>,
    /// `FLUVIO_SPU_RETRY_COUNT`
    pub retry_count: Option<String>,
    /// `FLUVIO_SPU_RETRY_INITIAL_DELAY_MS`
    pub initial_delay_ms: Option<String>,
    /// `FLUVIO_SPU_RETRY_MAX_DELAY_MS`
    pub max_delay_ms: Option<String>,
}

/// Whether a value switches local addresses on: `true` in whatever case, or `1`.
pub open spec fn means_local(value: Seq<char>) -> bool {
    same_ignoring_case(value, "true"@) || value == "1"@
}

pub fn check_spu_local_override(val: &str) -> (r: bool)
    ensures
        r == means_local(val@),
{
    eq_ignore_case(val, "true") || text_eq(val, "1")
}

/// Reads a number of 32 bits.
pub fn parse_spu_retry_env_u32(val: &str) -> (r: Option<u32>)
    ensures
        (match r {
            Some(n) => Some(n as nat),
            None => None,
        }) == read_unsigned(val@, u32::MAX as nat),
{
    match parse_unsigned(val, 0xffff_ffff) {
        Some(n) => Some(n as u32),
        None => None,
    }
}

/// Reads a number of 64 bits.
pub fn parse_spu_retry_env_u64(val: &str) -> (r: Option<u64>)
    ensures
        (match r {
            Some(n) => Some(n as nat),
            None => None,
        }) == read_unsigned(val@, u64::MAX as nat),
{
    parse_unsigned(val, 0xffff_ffff_ffff_ffff)
}

/// What a number is set to by the value of a variable: the number that it says, where it says one
/// of at most `max`, else what it was.
pub open spec fn overridden(before: nat, value: Option<Seq<char>>, max: nat) -> nat {
    match value {
        Some(v) => match read_unsigned(v, max) {
            Some(n) => n,
            None => before,
        },
        None => before,
    }
}

impl FluvioClusterConfig {
    /// The custom values that the profile keeps for the cluster.
    pub open spec fn values(self) -> Map<Seq<char>, toml::Value> {
        table_values(self.metadata)
    }

    /// The configuration of a connection that is not secured.
    pub fn new(addr: String) -> (r: FluvioClusterConfig)
        ensures
            r.endpoint == addr,
            !r.use_spu_local_address,
            r.tls is Disabled,
            r.spu_retry_count == DEFAULT_SPU_RETRY_COUNT,
            r.spu_retry_initial_delay_ms == DEFAULT_SPU_RETRY_INITIAL_DELAY_MS,
            r.spu_retry_max_delay_ms == DEFAULT_SPU_RETRY_MAX_DELAY_MS,
            r.values() == no_values(),
            r.client_id is None,
    {
        FluvioClusterConfig {
            endpoint: addr,
            use_spu_local_address: false,
            tls: TlsPolicy::Disabled,
            spu_retry_count: DEFAULT_SPU_RETRY_COUNT,
            spu_retry_initial_delay_ms: DEFAULT_SPU_RETRY_INITIAL_DELAY_MS,
            spu_retry_max_delay_ms: DEFAULT_SPU_RETRY_MAX_DELAY_MS,
            metadata: new_table(),
            client_id: None,
        }
    }

    /// The configuration that a profile gives: what it does not say is as in [`new`].
    pub fn from_fields(fields: ClusterFields) -> (r: FluvioClusterConfig)
        ensures
            r.endpoint == fields.endpoint,
            r.use_spu_local_address == (fields.use_spu_local_address == Some(true)),
            (match fields.tls {
                Some(tls) => r.tls == tls,
                None => r.tls is Disabled,
            }),
            r.spu_retry_count == (match fields.spu_retry_count {
                Some(n) => n,
                None => DEFAULT_SPU_RETRY_COUNT,
            }),
            r.spu_retry_initial_delay_ms == (match fields.spu_retry_initial_delay_ms {
                Some(n) => n,
                None => DEFAULT_SPU_RETRY_INITIAL_DELAY_MS,
            }),
            r.spu_retry_max_delay_ms == (match fields.spu_retry_max_delay_ms {
                Some(n) => n,
                None => DEFAULT_SPU_RETRY_MAX_DELAY_MS,
            }),
            r.values() == (match fields.metadata {
                Some(table) => table_values(table),
                None => no_values(),
            }),
            r.client_id is None,
    {
        FluvioClusterConfig {
            endpoint: fields.endpoint,
            use_spu_local_address: match fields.use_spu_local_address {
                Some(b) => b,
                None => false,
            },
            tls: match fields.tls {
                Some(tls) => tls,
                None => TlsPolicy::Disabled,
            },
            spu_retry_count: match fields.spu_retry_count {
                Some(n) => n,
                None => DEFAULT_SPU_RETRY_COUNT,
            },
            spu_retry_initial_delay_ms: match fields.spu_retry_initial_delay_ms {
                Some(n) => n,
                None => DEFAULT_SPU_RETRY_INITIAL_DELAY_MS,
            },
            spu_retry_max_delay_ms: match fields.spu_retry_max_delay_ms {
                Some(n) => n,
                None => DEFAULT_SPU_RETRY_MAX_DELAY_MS,
            },
            metadata: match fields.metadata {
                Some(table) => table,
                None => new_table(),
            },
            client_id: None,
        }
    }

    /// The same configuration with connections secured as `tls` says.
    pub fn with_tls(self, tls: TlsPolicy) -> (r: FluvioClusterConfig)
        ensures
            r == (FluvioClusterConfig { tls, ..self }),
    {
        let mut r = self;
        r.tls = tls;
        r
    }

    /// Lets environment variables have precedence. A variable whose value makes no sense changes
    /// nothing, and no value switches local addresses off.
    pub fn apply_env_overrides(&mut self, env: &EnvOverrides)
        ensures
            final(self).endpoint == old(self).endpoint,
            final(self).tls == old(self).tls,
            final(self).values() == old(self).values(),
            final(self).client_id == old(self).client_id,
            final(self).use_spu_local_address == (old(self).use_spu_local_address
                || (opt_text(env.spu_local) matches Some(v) && means_local(v))),
            final(self).spu_retry_count == overridden(
                old(self).spu_retry_count as nat,
                opt_text(env.retry_count),
                u32::MAX as nat,
            ),
            final(self).spu_retry_initial_delay_ms == overridden(
                old(self).spu_retry_initial_delay_ms as nat,
                opt_text(env.initial_delay_ms),
                u64::MAX as nat,
            ),
            final(self).spu_retry_max_delay_ms == overridden(
                old(self).spu_retry_max_delay_ms as nat,
                opt_text(env.max_delay_ms),
                u64::MAX as nat,
            ),
    {
        if let Some(val) = &env.spu_local {
            if check_spu_local_override(val.as_str()) {
                self.use_spu_local_address = true;
            }
        }
        if let Some(val) = &env.retry_count {
            if let Some(n) = parse_spu_retry_env_u32(val.as_str()) {
                self.spu_retry_count = n;
            }
        }
        if let Some(val) = &env.initial_delay_ms {
            if let Some(n) = parse_spu_retry_env_u64(val.as_str()) {
                self.spu_retry_initial_delay_ms = n;
            }
        }
        if let Some(val) = &env.max_delay_ms {
            if let Some(n) = parse_spu_retry_env_u64(val.as_str()) {
                self.spu_retry_max_delay_ms = n;
            }
        }
    }

    /// Publishes how a lost connection is tried again. What was published first stays.
    pub fn publish_spu_retry_config(&self, published: &mut Option<SpuRetryConfig>)
        ensures
            (match *old(published) {
                Some(config) => *final(published) == Some(config),
                None => *final(published) matches Some(config) && config.is_retry_of(*self),
            }),
    {
        if published.is_none() {
            *published = Some(
                SpuRetryConfig {
                    retry_count: self.spu_retry_count,
                    initial_delay: self.spu_retry_initial_delay(),
                    max_delay: self.spu_retry_max_delay(),
                },
            );
        }
    }

    /// Whether this is what a profile gives, with environment variables having precedence.
    pub open spec fn is_loaded(self, fields: ClusterFields, env: EnvOverrides) -> bool {
        &&& self.endpoint == fields.endpoint
        &&& self.use_spu_local_address == (fields.use_spu_local_address == Some(true) || (opt_text(
            env.spu_local,
        ) matches Some(v) && means_local(v)))
        &&& (match fields.tls {
            Some(tls) => self.tls == tls,
            None => self.tls is Disabled,
        })
        &&& self.spu_retry_count == overridden(
            (match fields.spu_retry_count {
                Some(n) => n,
                None => DEFAULT_SPU_RETRY_COUNT,
            }) as nat,
            opt_text(env.retry_count),
            u32::MAX as nat,
        )
        &&& self.spu_retry_initial_delay_ms == overridden(
            (match fields.spu_retry_initial_delay_ms {
                Some(n) => n,
                None => DEFAULT_SPU_RETRY_INITIAL_DELAY_MS,
            }) as nat,
            opt_text(env.initial_delay_ms),
            u64::MAX as nat,
        )
        &&& self.spu_retry_max_delay_ms == overridden(
            (match fields.spu_retry_max_delay_ms {
                Some(n) => n,
                None => DEFAULT_SPU_RETRY_MAX_DELAY_MS,
            }) as nat,
            opt_text(env.max_delay_ms),
            u64::MAX as nat,
        )
        &&& self.values() == (match fields.metadata {
            Some(table) => table_values(table),
            None => no_values(),
        })
        &&& self.client_id is None
    }

    /// Makes a configuration from a profile ready for use: environment variables have precedence,
    /// and how a lost connection is tried again is published.
    pub fn load(fields: ClusterFields, env: &EnvOverrides, published: &mut Option<SpuRetryConfig>) -> (
    r: FluvioClusterConfig)
        ensures
            r.is_loaded(fields, *env),
            (match *old(published) {
                Some(config) => *final(published) == Some(config),
                None => *final(published) matches Some(config) && config.is_retry_of(r),
            }),
    {
        let mut config = FluvioClusterConfig::from_fields(fields);
        config.apply_env_overrides(env);
        config.publish_spu_retry_config(published);
        config
    }

    /// Makes the configuration of a named profile ready for use; there is none where the profile
    /// has none, and nothing is published then.
    pub fn load_with_profile(
        fields: Option<ClusterFields>,
        env: &EnvOverrides,
        published: &mut Option<SpuRetryConfig>,
    ) -> (r: Option<FluvioClusterConfig>)
        ensures
            (match (fields, r) {
                (Some(fields), Some(config)) => {
                    &&& config.is_loaded(fields, *env)
                    &&& (match *old(published) {
                        Some(first) => *final(published) == Some(first),
                        None => *final(published) matches Some(first) && first.is_retry_of(config),
                    })
                },
                (None, None) => *final(published) == *old(published),
                _ => false,
            }),
    {
        match fields {
            Some(fields) => Some(FluvioClusterConfig::load(fields, env, published)),
            None => None,
        }
    }

    /// The span before the first try.
    pub fn spu_retry_initial_delay(&self) -> (d: Duration)
        ensures
            is_millis(d, self.spu_retry_initial_delay_ms),
    {
        from_millis(self.spu_retry_initial_delay_ms)
    }

    /// The longest span between two tries.
    pub fn spu_retry_max_delay(&self) -> (d: Duration)
        ensures
            is_millis(d, self.spu_retry_max_delay_ms),
    {
        from_millis(self.spu_retry_max_delay_ms)
    }

    /// The custom value of a name.
    pub fn query_metadata_by_name(&self, name: &str) -> (r: Option<&toml::Value>)
        ensures
            r is Some <==> self.values().contains_key(name@),
            r matches Some(v) ==> *v == self.values()[name@],
    {
        get_value(&self.metadata, name)
    }

    /// Gives a name a custom value, in place of the one it had.
    pub fn update_metadata_by_name(&mut self, name: &str, data: toml::Value)
        ensures
            final(self).values() == old(self).values().insert(name@, data),
            final(self).endpoint == old(self).endpoint,
            final(self).use_spu_local_address == old(self).use_spu_local_address,
            final(self).tls == old(self).tls,
            final(self).spu_retry_count == old(self).spu_retry_count,
            final(self).spu_retry_initial_delay_ms == old(self).spu_retry_initial_delay_ms,
            final(self).spu_retry_max_delay_ms == old(self).spu_retry_max_delay_ms,
            final(self).client_id == old(self).client_id,
    {
        insert_value(&mut self.metadata, name.to_owned(), data);
    }

    /// Whether a name has a custom value.
    pub fn has_metadata(&self, name: &str) -> (r: bool)
        ensures
            r == self.values().contains_key(name@),
    {
        get_value(&self.metadata, name).is_some()
    }
}

/// A custom value is read back as it was written, and writing it changes no other one.
pub proof fn law_metadata_is_read_back(
    values: Map<Seq<char>, toml::Value>,
    name: Seq<char>,
    data: toml::Value,
    other: Seq<char>,
)
    ensures
        values.insert(name, data).contains_key(name),
        values.insert(name, data)[name] == data,
        other != name ==> values.insert(name, data).contains_key(other) == values.contains_key(
            other,
        ),
        other != name && values.contains_key(other) ==> values.insert(name, data)[other]
            == values[other],
{
}

/// A variable sets a number to the one it says. One that is not set, or says no number that fits,
/// leaves the number as it was.
pub proof fn law_variable_has_precedence(before: nat, n: nat, text: Seq<char>, max: nat)
    requires
        read_unsigned(text, max) is None,
    ensures
        n <= max ==> overridden(before, Some(digits(n)), max) == n,
        n > max ==> overridden(before, Some(digits(n)), max) == before,
        overridden(before, Some(text), max) == before,
        overridden(before, None, max) == before,
{
    law_read_of_other_texts(text, n, max);
    if n <= max {
        law_read_back(n, max);
    }
}

/// Local addresses are switched on by `1` and by `true`, in capitals or not, and by nothing else.
pub proof fn law_what_means_local(value: Seq<char>)
    ensures
        means_local(value) <==> value == seq!['1'] || (value.len() == 4 && (value[0] == 't' || value[0]
            == 'T') && (value[1] == 'r' || value[1] == 'R') && (value[2] == 'u' || value[2] == 'U') && (
        value[3] == 'e' || value[3] == 'E')),
{
    reveal_strlit("true");
    reveal_strlit("1");
    assert("1"@ =~= seq!['1']);
    law_case_does_not_matter(value, "true"@);
    if value.len() == 4 {
        assert("true"@[0] == 't' && "true"@[1] == 'r' && "true"@[2] == 'u' && "true"@[3] == 'e');
        if same_ignoring_case(value, "true"@) {
            assert(value[0] == value[0] && value[1] == value[1] && value[2] == value[2] && value[3]
                == value[3]);
        }
    }
}

/// What a profile says is loaded as it is; what it does not say has the usual value; and a variable of
/// the environment has precedence over both.
pub proof fn law_profile_is_loaded_as_it_is(
    config: FluvioClusterConfig,
    fields: ClusterFields,
    env: EnvOverrides,
)
    requires
        config.is_loaded(fields, env),
    ensures
        config.endpoint == fields.endpoint,
        config.client_id is None,
        fields.tls matches Some(tls) ==> config.tls == tls,
        fields.tls is None ==> config.tls is Disabled,
        fields.metadata matches Some(table) ==> config.values() == table_values(table),
        fields.metadata is None ==> config.values().dom() == Set::<Seq<char>>::empty(),
        env.spu_local is None ==> config.use_spu_local_address == (fields.use_spu_local_address == Some(
            true,
        )),
        env.spu_local matches Some(v) ==> (means_local(v@) ==> config.use_spu_local_address),
        env.retry_count is None ==> config.spu_retry_count == (if fields.spu_retry_count is Some {
            fields.spu_retry_count->0 as int
        } else {
            16
        }),
        env.initial_delay_ms is None ==> config.spu_retry_initial_delay_ms == (
        if fields.spu_retry_initial_delay_ms is Some {
            fields.spu_retry_initial_delay_ms->0 as int
        } else {
            1000
        }),
        env.max_delay_ms is None ==> config.spu_retry_max_delay_ms == (
        if fields.spu_retry_max_delay_ms is Some {
            fields.spu_retry_max_delay_ms->0 as int
        } else {
            30000
        }),
        env.retry_count matches Some(v) ==> (forall|n: nat|
            n <= u32::MAX && v@ == #[trigger] digits(n) ==> config.spu_retry_count == n),
        env.initial_delay_ms matches Some(v) ==> (forall|n: nat|
            n <= u64::MAX && v@ == #[trigger] digits(n) ==> config.spu_retry_initial_delay_ms == n),
        env.max_delay_ms matches Some(v) ==> (forall|n: nat|
            n <= u64::MAX && v@ == #[trigger] digits(n) ==> config.spu_retry_max_delay_ms == n),
{
    assert forall|n: nat| n <= u32::MAX implies read_unsigned(#[trigger] digits(n), u32::MAX as nat)
        == Some(n) by {
        law_read_back(n, u32::MAX as nat);
    }
    assert forall|n: nat| n <= u64::MAX implies read_unsigned(#[trigger] digits(n), u64::MAX as nat)
        == Some(n) by {
        law_read_back(n, u64::MAX as nat);
    }
    if fields.metadata is None {
        assert(config.values().dom() =~= Set::<Seq<char>>::empty());
    }
}

/// A lost connection is tried again as often as configured, and the spans are the configured numbers of
/// milliseconds. Without a configuration it is tried 16 times, after a second at first and after half
/// a minute at most.
pub proof fn law_lost_connection_is_tried_again(retry: SpuRetryConfig, config: FluvioClusterConfig)
    ensures
        retry.is_default() ==> retry.retry_count == 16 && nanos(retry.initial_delay) == 1_000_000_000
            && nanos(retry.max_delay) == 30_000_000_000,
        retry.is_retry_of(config) ==> retry.retry_count == config.spu_retry_count && nanos(
            retry.initial_delay,
        ) == config.spu_retry_initial_delay_ms * 1_000_000 && nanos(retry.max_delay)
            == config.spu_retry_max_delay_ms * 1_000_000,
{
}

} // verus!
