//! The balancer: a fixed pool of backends behind a shared rotation cursor.

use std::sync::atomic::AtomicUsize;
use std::sync::atomic::Ordering;
use vstd::prelude::*;
use vstd::string::StrSliceExecFns;
use vstd::utf8::encode_utf8;
use crate::config::Config;
use crate::config::Server;
use crate::endpoint::resolve_target;
use crate::endpoint::target_at;
use crate::endpoint::usable_url;
use crate::endpoint::Target;
use crate::headers::fields;
use crate::headers::outbound;
use crate::headers::outbound_fields;
use crate::headers::Header;
use crate::log_level::LogLevel;
use crate::log_level::TraceLevel;
use crate::rotation::slot;
use crate::rotation::slot_of;
use crate::wire::authority;
use crate::wire::authority_bytes;
use crate::wire::compose_target;
use crate::wire::head_bytes;
use crate::wire::request_head;
use crate::wire::target_bytes;

verus! {

/// Why a configuration cannot be served.
#[derive(Debug, Clone, Copy, PartialEq, Eq, Structural)]
pub enum ConfigError {
    /// The list of servers is empty.
    NoServers,
    /// The server at this position has a URL that is not absolute or names
    /// no host.
    InvalidUrl(usize),
}

/// An inbound request, as far as forwarding reads it.
#[derive(Debug, Clone, PartialEq, Eq)]
pub struct Request {
    pub method: Vec<u8>,
    pub path: Vec<u8>,
    pub query: Option<Vec<u8>>,
    pub headers: Vec<Header>,
    pub body: Vec<u8>,
}

/// What to send and where: the position of the chosen backend, the host and
/// port to connect to, and the head of the outbound request. The request's
/// body follows the head unchanged.
#[derive(Debug, Clone, PartialEq, Eq)]
pub struct Dispatch {
    pub backend: usize,
    pub host: String,
    pub port: u16,
    pub head: Vec<u8>,
}

impl Request {
    /// The query as plain bytes.
    pub open spec fn query_text(&self) -> Option<Seq<u8>> {
        match self.query {
            Some(q) => Some(q@),
            None => None,
        }
    }
}

/// The head of the request that goes to `server` for `request`: the target
/// is the server's URL followed by the request's path and query, the `Host`
/// line names the server's own host and port, and the client's headers
/// follow without the hop-by-hop ones.
pub open spec fn outbound_head(server: Server, target: (Seq<char>, u16), request: Request) -> Seq<
    u8,
> {
    head_bytes(
        request.method@,
        target_bytes(encode_utf8(server.url@), request.path@, request.query_text()),
        authority_bytes(encode_utf8(target.0), target.1),
        outbound_fields(fields(request.headers@)),
    )
}

/// The bytes of `0.0.0.0`, the address that stands for every interface.
pub open spec fn every_interface() -> Seq<u8> {
    seq![48u8, 46u8, 48u8, 46u8, 48u8, 46u8, 48u8]
}

/// A pool of backends that is fixed once made, with the shared cursor that
/// hands requests out to them in turn. The pool is never empty, and every
/// backend in it has a URL that gives a host and a port.
pub struct Balancer {
    config: Config,
    targets: Vec<Target>,
    next_server: AtomicUsize,
}

impl Balancer {
    #[verifier::type_invariant]
    spec fn well_formed(&self) -> bool {
        &&& self.config.servers@.len() > 0
        &&& self.targets@.len() == self.config.servers@.len()
        &&& forall|i: int|
            0 <= i < self.targets@.len() ==> target_at(self.config.servers@[i].url@) == Ok::<
                (Seq<char>, u16),
                crate::endpoint::ResolveError,
            >(#[trigger] self.targets@[i]@)
    }

    /// The configuration that the balancer was made from.
    pub closed spec fn settings(&self) -> Config {
        self.config
    }

    /// Makes a balancer for a configuration, with the cursor at the first
    /// server. Fails where the configuration names no server, and where a
    /// server's URL is not an absolute URL with a host: then with the
    /// position of the first such server.
    pub fn new(config: Config) -> (r: Result<Balancer, ConfigError>)
        ensures
            r matches Err(ConfigError::NoServers) <==> config.servers@.len() == 0,
            r matches Err(ConfigError::InvalidUrl(at)) ==> at < config.servers@.len() && !usable_url(
                config.servers@[at as int].url@,
            ) && forall|j: int| 0 <= j < at ==> usable_url(#[trigger] config.servers@[j].url@),
            r is Ok <==> config.servers@.len() > 0 && forall|j: int|
                0 <= j < config.servers@.len() ==> usable_url(#[trigger] config.servers@[j].url@),
            r matches Ok(balancer) ==> balancer.settings() == config,
    {
        if config.servers.len() == 0 {
            return Err(ConfigError::NoServers);
        }
        let mut targets: Vec<Target> = Vec::new();
        let mut i: usize = 0;
        while i < config.servers.len()
            invariant
                i <= config.servers@.len(),
                targets@.len() == i,
                forall|j: int|
                    0 <= j < i ==> target_at(config.servers@[j].url@) == Ok::<
                        (Seq<char>, u16),
                        crate::endpoint::ResolveError,
                    >(#[trigger] targets@[j]@),
                forall|j: int| 0 <= j < i ==> usable_url(#[trigger] config.servers@[j].url@),
            decreases config.servers@.len() - i,
        {
            match resolve_target(config.servers[i].url.as_str()) {
                Ok(target) => {
                    targets.push(target);
                },
                Err(_) => {
                    return Err(ConfigError::InvalidUrl(i));
                },
            }
            i += 1;
        }
        Ok(Balancer { config, targets, next_server: AtomicUsize::new(0) })
    }

    /// Whether the configuration asks for log output.
    pub fn is_logging_enabled(&self) -> (enabled: bool)
        ensures
            enabled == (self.settings().log_level != LogLevel::Off),
    {
        match self.config.log_level {
            LogLevel::Off => false,
            _ => true,
        }
    }

    /// The threshold to set the log sink to; none where logging is off and
    /// no sink is to be set up.
    pub fn sink_level(&self) -> (level: Option<TraceLevel>)
        ensures
            level == if self.settings().log_level == LogLevel::Off {
                None
            } else {
                Some(self.settings().log_level.threshold())
            },
    {
        if self.is_logging_enabled() {
            Some(self.config.log_level.to_tracing_level())
        } else {
            None
        }
    }

    /// The address to listen on: every interface, at the configured port.
    pub fn listen_address(&self) -> (address: Vec<u8>)
        ensures
            address@ == authority_bytes(every_interface(), self.settings().port),
    {
        let interface: Vec<u8> = vec![48u8, 46u8, 48u8, 46u8, 48u8, 46u8, 48u8];
        assert(interface@ =~= every_interface());
        authority(interface.as_slice(), self.config.port)
    }

    /// The configuration that the balancer was made from.
    pub fn config(&self) -> (config: &Config)
        ensures
            *config == self.settings(),
    {
        &self.config
    }

    /// The number of backends, which is never zero.
    pub fn backend_count(&self) -> (count: usize)
        ensures
            count == self.settings().servers@.len(),
            count > 0,
    {
        proof {
            use_type_invariant(self);
        }
        self.config.servers.len()
    }

    /// Takes the next ticket from the shared cursor: one atomic
    /// fetch-and-increment, which wraps at the end of the machine word.
    /// Nothing is promised of the value: it depends on the calls that came
    /// before, from this caller and from others.
    pub fn take_ticket(&self) -> (ticket: usize) {
        self.next_server.fetch_add(1, Ordering::Relaxed)
    }

    /// The position of the backend that serves the holder of `ticket`.
    pub fn position_for(&self, ticket: usize) -> (index: usize)
        ensures
            index < self.settings().servers@.len(),
            index as nat == slot_of(ticket as nat, self.settings().servers@.len()),
    {
        proof {
            use_type_invariant(self);
        }
        slot(ticket, self.config.servers.len())
    }

    /// The backend that serves the holder of `ticket`.
    pub fn backend_for(&self, ticket: usize) -> (server: &Server)
        ensures
            *server == self.settings().servers@[slot_of(
                ticket as nat,
                self.settings().servers@.len(),
            ) as int],
    {
        let index: usize = self.position_for(ticket);
        &self.config.servers[index]
    }

    /// Selects the backend for the next request: takes a ticket and gives
    /// the position that it falls on. Whatever the ticket, the position
    /// lies inside the pool.
    pub fn next_position(&self) -> (index: usize)
        ensures
            index < self.settings().servers@.len(),
    {
        let ticket: usize = self.take_ticket();
        self.position_for(ticket)
    }

    /// Selects the backend for the next request: one of the configured
    /// servers, whatever the ticket.
    pub fn next(&self) -> (server: &Server)
        ensures
            exists|i: int|
                0 <= i < self.settings().servers@.len() && *server
                    == #[trigger] self.settings().servers@[i],
    {
        let index: usize = self.next_position();
        &self.config.servers[index]
    }

    /// Writes what goes to the backend at position `backend` for a request.
    pub fn dispatch_to(&self, backend: usize, request: &Request) -> (out: Dispatch)
        requires
            backend < self.settings().servers@.len(),
        ensures
            out.backend == backend,
            target_at(self.settings().servers@[backend as int].url@) == Ok::<
                (Seq<char>, u16),
                crate::endpoint::ResolveError,
            >((out.host@, out.port)),
            out.head@ == outbound_head(
                self.settings().servers@[backend as int],
                (out.host@, out.port),
                *request,
            ),
    {
        proof {
            use_type_invariant(self);
        }
        let server: &Server = &self.config.servers[backend];
        let target: &Target = &self.targets[backend];
        assert(self.targets@[backend as int]@ == (target.host@, target.port));
        let base: Vec<u8> = server.url.as_str().as_bytes_vec();
        let host_bytes: Vec<u8> = target.host.as_str().as_bytes_vec();
        let goal: Vec<u8> = match &request.query {
            Some(q) => compose_target(base.as_slice(), request.path.as_slice(), Some(q.as_slice())),
            None => compose_target(base.as_slice(), request.path.as_slice(), None),
        };
        let host_value: Vec<u8> = authority(host_bytes.as_slice(), target.port);
        let headers: Vec<Header> = outbound(&request.headers);
        let head: Vec<u8> = request_head(
            request.method.as_slice(),
            goal.as_slice(),
            host_value.as_slice(),
            &headers,
        );
        Dispatch { backend, host: target.host.clone(), port: target.port, head }
    }

    /// Plans the forwarding of a request: selects the next backend, which
    /// consumes its turn whatever becomes of the request, and writes what
    /// goes to it.
    pub fn dispatch(&self, request: &Request) -> (out: Dispatch)
        ensures
            out.backend < self.settings().servers@.len(),
            target_at(self.settings().servers@[out.backend as int].url@) == Ok::<
                (Seq<char>, u16),
                crate::endpoint::ResolveError,
            >((out.host@, out.port)),
            out.head@ == outbound_head(
                self.settings().servers@[out.backend as int],
                (out.host@, out.port),
                *request,
            ),
    {
        let backend: usize = self.next_position();
        self.dispatch_to(backend, request)
    }
}

} // verus!
