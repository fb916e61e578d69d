//! Whether a unit is ready, and how it says so.
use std::sync::Arc;

use vstd::prelude::*;

use crate::decimal::{
    decimal, digits, law_read_back, law_read_of_other_texts, parse_unsigned, read_unsigned,
};
use crate::text::{chars_of, opt_text};

verus! {

#[verifier::external_type_specification]
#[verifier::external_body]
pub struct ExStickyEvent(fluvio_types::event::StickyEvent);

/// The port of the health server, unless it is configured.
pub const SPU_HEALTH_PORT: u16 = 9008;

/// The answer that all is well.
pub const HTTP_200: &'static str = "HTTP/1.1 200 OK\r\nContent-Length: 2\r\n\r\nok";

/// The answer that the unit is not ready.
pub const HTTP_503: &'static str =
    "HTTP/1.1 503 Service Unavailable\r\nContent-Length: 9\r\n\r\nnot ready";

/// What a unit knows of its own state.
#[derive(Debug)]
pub struct HealthState {
    pub sc_connected: bool,
    pub storage_ready: bool,
    /// Those to be told when the unit shuts down.
    pub shutdown_events: Vec<Arc<fluvio_types::event::StickyEvent>>,
}

/// Calls `fluvio_types::event::StickyEvent::notify`. Nothing is claimed of it: it changes the event
/// behind a shared reference, where no contract can see it.
#[verifier::external_body]
fn notify_event(event: &Arc<fluvio_types::event::StickyEvent>) {
    event.notify();
}

impl HealthState {
    /// The state of a unit that has just started.
    pub fn new() -> (h: HealthState)
        ensures
            !h.sc_connected,
            !h.storage_ready,
            h.shutdown_events@.len() == 0,
    {
        HealthState { sc_connected: false, storage_ready: false, shutdown_events: Vec::new() }
    }

    pub fn set_sc_connected(&mut self, connected: bool)
        ensures
            *final(self) == (HealthState { sc_connected: connected, ..*old(self) }),
    {
        self.sc_connected = connected;
    }

    pub fn set_storage_ready(&mut self, ready: bool)
        ensures
            *final(self) == (HealthState { storage_ready: ready, ..*old(self) }),
    {
        self.storage_ready = ready;
    }

    /// A unit is ready when it is connected and its storage is.
    pub fn is_ready(&self) -> (r: bool)
        ensures
            r == (self.sc_connected && self.storage_ready),
    {
        self.sc_connected && self.storage_ready
    }

    /// Has an event told of the shutdown.
    pub fn register_shutdown_event(&mut self, event: Arc<fluvio_types::event::StickyEvent>)
        ensures
            final(self).shutdown_events@ == old(self).shutdown_events@.push(event),
            final(self).sc_connected == old(self).sc_connected,
            final(self).storage_ready == old(self).storage_ready,
    {
        self.shutdown_events.push(event);
    }

    /// Tells all registered events, in the order in which they were registered, that the unit shuts
    /// down. That they were told is not stated: it shows in the events alone.
    pub fn trigger_shutdown(&self) {
        let mut i: usize = 0;
        while i < self.shutdown_events.len()
            invariant
                i <= self.shutdown_events@.len(),
            decreases self.shutdown_events.len() - i,
        {
            notify_event(&self.shutdown_events[i]);
            i += 1;
        }
    }
}

/// What a request for readiness starts with.
pub const READINESS_REQUEST: &'static str = "GET /readyz";

/// Whether a request asks for readiness.
pub open spec fn asks_readiness(request: Seq<u8>) -> bool {
    let start = READINESS_REQUEST@;
    request.len() >= start.len() && forall|i: int|
        0 <= i < start.len() ==> #[trigger] request[i] as int == start[i] as int
}

fn is_readiness_request(request: &[u8]) -> (r: bool)
    ensures
        r == asks_readiness(request@),
{
    let start = chars_of(READINESS_REQUEST);
    if request.len() < start.len() {
        return false;
    }
    let mut i: usize = 0;
    while i < start.len()
        invariant
            i <= start@.len() <= request@.len(),
            start@ == READINESS_REQUEST@,
            forall|k: int| 0 <= k < i ==> #[trigger] request@[k] as int == start@[k] as int,
        decreases start.len() - i,
    {
        let c: char = start[i];
        let b: u8 = request[i];
        if b as char != c {
            assert(request@[i as int] as int != start@[i as int] as int);
            return false;
        }
        i += 1;
    }
    true
}

/// The answer to a request. Only one for readiness can be told that the unit is not ready: any other
/// one shows that the process is alive.
pub fn health_response(request: &[u8], ready: bool) -> (response: &'static str)
    ensures
        response@ == (if asks_readiness(request@) && !ready {
            HTTP_503@
        } else {
            HTTP_200@
        }),
{
    if is_readiness_request(request) && !ready {
        HTTP_503
    } else {
        HTTP_200
    }
}

/// The port of the health server: the configured one, where it is a number of 16 bits.
pub open spec fn health_port(configured: Option<Seq<char>>) -> nat {
    match configured {
        Some(text) => match read_unsigned(text, u16::MAX as nat) {
            Some(port) => port,
            None => SPU_HEALTH_PORT as nat,
        },
        None => SPU_HEALTH_PORT as nat,
    }
}

/// The address of the health server, on all interfaces.
pub fn health_address(configured: &Option<String>) -> (addr: String)
    ensures
        addr@ == "0.0.0.0:"@ + digits(health_port(opt_text(*configured))),
{
    let port: u64 = match configured {
        Some(text) => match parse_unsigned(text.as_str(), 0xffff) {
            Some(port) => port,
            None => SPU_HEALTH_PORT as u64,
        },
        None => SPU_HEALTH_PORT as u64,
    };
    "0.0.0.0:".to_owned().concat(decimal(port).as_str())
}

/// A request asks for readiness exactly where its first eleven bytes are those of `GET /readyz`.
pub proof fn law_request_for_readiness(request: Seq<u8>)
    ensures
        asks_readiness(request) <==> request.len() >= 11 && request.take(11) == seq![
            71u8,
            69,
            84,
            32,
            47,
            114,
            101,
            97,
            100,
            121,
            122,
        ],
{
    reveal_strlit("GET /readyz");
    let start = READINESS_REQUEST@;
    let bytes = seq![71u8, 69, 84, 32, 47, 114, 101, 97, 100, 121, 122];
    assert(start.len() == 11);
    assert forall|i: int| 0 <= i < 11 implies start[i] as int == #[trigger] bytes[i] as int by {}
    if asks_readiness(request) {
        assert forall|i: int| 0 <= i < 11 implies request.take(11)[i] == bytes[i] by {
            assert(request[i] as int == start[i] as int);
        }
        assert(request.take(11) =~= bytes);
    }
    if request.len() >= 11 && request.take(11) == bytes {
        assert forall|i: int| 0 <= i < 11 implies #[trigger] request[i] as int == start[i] as int by {
            assert(request.take(11)[i] == bytes[i]);
        }
    }
}

/// The health server listens on the port that is configured, and on the usual one where none is or it
/// is no number of 16 bits.
pub proof fn law_health_server_listens_where_configured(n: nat, text: Seq<char>)
    requires
        read_unsigned(text, 65535) is None,
    ensures
        n <= 65535 ==> health_port(Some(digits(n))) == n,
        n > 65535 ==> health_port(Some(digits(n))) == 9008,
        health_port(Some(text)) == 9008,
        health_port(None) == 9008,
{
    law_read_of_other_texts(text, n, 65535);
    if n <= 65535 {
        law_read_back(n, 65535);
    }
}

} // verus!
