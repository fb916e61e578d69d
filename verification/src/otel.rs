//! What is observed of the processes, and where the observations go.
use vstd::prelude::*;

verus! {

pub const DEFAULT_SERVICE_NAME: &'static str = "fluvio-sc";

pub const DEFAULT_ENDPOINT: &'static str = "http://localhost:4317";

pub const RECORDS_RECEIVED: &'static str = "fluvio.spu.records.received";

pub const RECORDS_SENT: &'static str = "fluvio.spu.records.sent";

pub const BYTES_RECEIVED: &'static str = "fluvio.spu.bytes.received";

pub const BYTES_SENT: &'static str = "fluvio.spu.bytes.sent";

pub const SMARTMODULE_INVOCATIONS: &'static str = "fluvio.spu.smartmodule.invocations";

pub const SMARTMODULE_ERRORS: &'static str = "fluvio.spu.smartmodule.errors";

/// Under which name, and to which collector, observations are sent.
#[derive(Debug)]
pub struct OtelSettings {
    pub service_name: String,
    pub endpoint: String,
}

/// The settings, from the values of `OTEL_SERVICE_NAME` and `OTEL_EXPORTER_OTLP_ENDPOINT`.
pub fn otel_settings(service_name: Option<String>, endpoint: Option<String>) -> (s: OtelSettings)
    ensures
        (match service_name {
            Some(name) => s.service_name == name,
            None => s.service_name@ == DEFAULT_SERVICE_NAME@,
        }),
        (match endpoint {
            Some(e) => s.endpoint == e,
            None => s.endpoint@ == DEFAULT_ENDPOINT@,
        }),
{
    OtelSettings {
        service_name: match service_name {
            Some(name) => name,
            None => DEFAULT_SERVICE_NAME.to_owned(),
        },
        endpoint: match endpoint {
            Some(e) => e,
            None => DEFAULT_ENDPOINT.to_owned(),
        },
    }
}

} // verus!
