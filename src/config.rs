//! The run's configuration, read once at startup, and what it selects.
use std::sync::Arc;
use vstd::prelude::*;

verus! {

/// The settings of one run.
#[derive(Clone, Debug)]
pub struct Cli {
    /// Run as the echo server rather than as a client.
    pub emode: bool,
    /// The echo server's address.
    pub server_addr: String,
    /// The echo server's UDP port.
    pub port: u16,
    /// Milliseconds the client waits between two echo requests.
    pub interval: u32,
    /// Run on cooperative tasks rather than on one thread per loop.
    pub async_mode: bool,
    /// The HTTP port on which the metrics are exported.
    pub whttp_port: u16,
}

/// The echo port that a run uses unless told otherwise.
pub const DEFAULT_PORT: u16 = 7001;

/// The client's send interval, in milliseconds, unless told otherwise.
pub const DEFAULT_INTERVAL_MS: u32 = 100;

/// The metrics port unless told otherwise.
pub const DEFAULT_HTTP_PORT: u16 = 8080;

impl Default for Cli {
    /// A client on threads that probes the echo server on the local host.
    fn default() -> (r: Cli)
        ensures
            !r.emode,
            r.server_addr@ == "127.0.0.1"@,
            r.port == DEFAULT_PORT,
            r.interval == DEFAULT_INTERVAL_MS,
            !r.async_mode,
            r.whttp_port == DEFAULT_HTTP_PORT,
    {
        Cli {
            emode: false,
            server_addr: "127.0.0.1".to_string(),
            port: DEFAULT_PORT,
            interval: DEFAULT_INTERVAL_MS,
            async_mode: false,
            whttp_port: DEFAULT_HTTP_PORT,
        }
    }
}

/// Shares the settings of a run with every part of it.
pub fn init(parsed: Cli) -> (r: Arc<Cli>)
    ensures
        *r == parsed,
{
    Arc::new(parsed)
}

/// The part a process plays.
#[derive(Clone, Debug)]
pub enum Role {
    /// Echo every datagram that reaches `port`.
    Server { port: u16 },
    /// Probe the echo server at `server_addr`:`port` every `interval_ms`
    /// milliseconds.
    Client { server_addr: String, port: u16, interval_ms: u32 },
}

/// How the loops of a run are scheduled.
#[derive(Clone, Copy, Debug, PartialEq, Eq, Structural)]
pub enum Strategy {
    /// Cooperative tasks on a small pool of workers.
    Tasks,
    /// One operating-system thread per loop.
    Threads,
}

/// What a run does, as its settings decide it.
#[derive(Clone, Debug)]
pub struct RunPlan {
    pub role: Role,
    pub strategy: Strategy,
    /// Where the metrics are served; only a client serves them.
    pub metrics_port: Option<u16>,
}

/// The plan that the settings `cli` select.
pub open spec fn plan_of(cli: Cli) -> RunPlan {
    RunPlan {
        role: if cli.emode {
            Role::Server { port: cli.port }
        } else {
            Role::Client { server_addr: cli.server_addr, port: cli.port, interval_ms: cli.interval }
        },
        strategy: if cli.async_mode {
            Strategy::Tasks
        } else {
            Strategy::Threads
        },
        metrics_port: if cli.emode {
            None
        } else {
            Some(cli.whttp_port)
        },
    }
}

/// Decides from the settings which role the run plays, on which scheduling
/// substrate, and whether it serves metrics.
pub fn plan(cli: &Cli) -> (r: RunPlan)
    ensures
        r == plan_of(*cli),
{
    let role = if cli.emode {
        Role::Server { port: cli.port }
    } else {
        Role::Client { server_addr: cli.server_addr.clone(), port: cli.port, interval_ms: cli.interval }
    };
    let strategy = if cli.async_mode {
        Strategy::Tasks
    } else {
        Strategy::Threads
    };
    let metrics_port = if cli.emode {
        None
    } else {
        Some(cli.whttp_port)
    };
    RunPlan { role, strategy, metrics_port }
}

} // verus!
