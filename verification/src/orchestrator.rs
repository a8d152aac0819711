use vstd::prelude::*;
use crate::allocator::{AllocatorModel, ServerAllocator};
use crate::ports::ServerPorts;

verus! {

/// The first game port that the orchestrator hands out.
pub const STARTING_PORT: u16 = 28785;

/// What the orchestrator answers a request to create a game server.
pub enum OrchestratorResponse {
    ContainerCreationSuccess { id: String, wan_ip: String, lan_ip: String, port: u16 },
    ContainerCreationError { error: String },
}

/// The addresses under which the game servers are reached from outside
/// (`wan_ip`) and from the local network (`lan_ip`).
pub struct ChungustratorConfig {
    pub wan_ip: String,
    pub lan_ip: String,
}

impl ChungustratorConfig {
    /// The configuration from the looked-up `WAN_IP` and `LAN_IP` settings;
    /// the first of them that could not be looked up gives the error.
    pub fn new<E>(wan_ip: Result<String, E>, lan_ip: Result<String, E>) -> (r: Result<Self, E>)
        ensures
            match wan_ip {
                Err(e) => r == Err::<Self, E>(e),
                Ok(w) => match lan_ip {
                    Err(e) => r == Err::<Self, E>(e),
                    Ok(l) => r == Ok::<Self, E>(ChungustratorConfig { wan_ip: w, lan_ip: l }),
                },
            },
    {
        let wan_ip = match wan_ip {
            Ok(w) => w,
            Err(e) => return Err(e),
        };
        let lan_ip = match lan_ip {
            Ok(l) => l,
            Err(e) => return Err(e),
        };
        Ok(Self { wan_ip, lan_ip })
    }

    /// The configuration used when the settings are missing: both
    /// addresses empty.
    pub fn unset() -> (r: Self)
        ensures
            r.wan_ip@ == Seq::<char>::empty(),
            r.lan_ip@ == Seq::<char>::empty(),
    {
        Self { wan_ip: String::new(), lan_ip: String::new() }
    }
}

/// The orchestrator's own state: its configuration and the port allocator
/// for the game servers it starts.
pub struct OrchestratorState {
    config: ChungustratorConfig,
    server_allocator: ServerAllocator,
}

impl OrchestratorState {
    /// The configuration in use.
    pub closed spec fn config(&self) -> ChungustratorConfig {
        self.config
    }

    /// The state of the port allocator.
    pub closed spec fn ports(&self) -> AllocatorModel {
        self.server_allocator@
    }

    /// Well-formedness: the allocator's.
    pub closed spec fn wf(&self) -> bool {
        self.server_allocator.wf()
    }

    /// A fresh orchestrator with the looked-up configuration, or with empty
    /// addresses where it could not be looked up; its allocator starts at
    /// [`STARTING_PORT`].
    pub fn new<E>(config: Result<ChungustratorConfig, E>) -> (r: Self)
        ensures
            r.wf(),
            r.ports().wf(),
            r.ports() == AllocatorModel::fresh(STARTING_PORT),
            match config {
                Ok(c) => r.config() == c,
                Err(_) => r.config().wan_ip@ == Seq::<char>::empty() && r.config().lan_ip@
                    == Seq::<char>::empty(),
            },
    {
        let config = match config {
            Ok(c) => c,
            Err(_) => ChungustratorConfig::unset(),
        };
        let server_allocator = ServerAllocator::new(STARTING_PORT);
        let r = Self { config, server_allocator };
        r
    }

    /// Whether another game server can be given ports.
    pub fn can_begin_creation(&self) -> (r: bool)
        requires
            self.wf(),
        ensures
            r == self.ports().can_allocate(),
    {
        self.server_allocator.can_allocate()
    }

    /// First step of creating a game server: reserve its ports.
    pub fn begin_creation(&mut self) -> (r: ServerPorts)
        requires
            old(self).wf(),
            old(self).ports().can_allocate(),
        ensures
            final(self).wf(),
            final(self).ports().wf(),
            final(self).config() == old(self).config(),
            final(self).ports() == old(self).ports().allocate(),
            r.game() == old(self).ports().next_base(),
            r.query() == r.game() + 1,
            !old(self).ports().active.contains(r.game()),
            !old(self).ports().active.contains(r.query()),
    {
        self.server_allocator.allocate_port()
    }

    /// Last step of creating a game server, given what became of creating
    /// and starting its containers on `ports`. On success the answer names
    /// the game container `id`, the configured addresses and the game port;
    /// on failure the ports are handed back and the failure is passed on.
    pub fn finish_creation<E>(&mut self, ports: ServerPorts, created: Result<String, E>) -> (r:
        Result<OrchestratorResponse, E>)
        requires
            old(self).wf(),
        ensures
            final(self).wf(),
            final(self).ports().wf(),
            final(self).config() == old(self).config(),
            match created {
                Ok(id) => {
                    &&& final(self).ports() == old(self).ports()
                    &&& r == Ok::<OrchestratorResponse, E>(
                        OrchestratorResponse::ContainerCreationSuccess {
                            id,
                            wan_ip: old(self).config().wan_ip,
                            lan_ip: old(self).config().lan_ip,
                            port: ports.game(),
                        },
                    )
                },
                Err(e) => {
                    &&& final(self).ports() == old(self).ports().release(
                        ports.game(),
                        ports.query(),
                    ).0
                    &&& r == Err::<OrchestratorResponse, E>(e)
                },
            },
    {
        match created {
            Ok(id) => {
                let port = ports.game_server_port();
                Ok(
                    OrchestratorResponse::ContainerCreationSuccess {
                        id,
                        wan_ip: self.config.wan_ip.clone(),
                        lan_ip: self.config.lan_ip.clone(),
                        port,
                    },
                )
            },
            Err(e) => {
                self.server_allocator.release_port(ports);
                Err(e)
            },
        }
    }
}

/// A creation that fails gives its ports back: after reserving the ports and
/// then reporting the failure, the same ports are in use as before, and
/// the game port waits to be reused.
pub proof fn law_failed_creation_frees_ports(before: AllocatorModel)
    requires
        before.wf(),
        before.can_allocate(),
    ensures
        ({
            let b = before.next_base();
            let after = before.allocate().release(b, (b + 1) as u16).0;
            &&& after.active == before.active
            &&& after.free == before.free.insert(b)
        }),
{
    crate::allocator::law_release_undoes_allocate(before);
}

/// From a new orchestrator whose creations all succeed, the creations get
/// consecutive pairs: the `i`-th (counting from 0) is based at
/// `STARTING_PORT + 2i`, its query port is one above, no pair is reused,
/// and after `k` creations the next fresh port is `STARTING_PORT + 2k`.
/// (A successful creation leaves the ports as `begin_creation` left them,
/// so the ports after `k` creations are `allocate_n` of the new state.)
pub proof fn law_creations_from_fresh(k: nat)
    requires
        STARTING_PORT + 2 * k <= u16::MAX,
    ensures
        forall|i: nat|
            i < k ==> #[trigger] crate::allocator::allocate_n(AllocatorModel::fresh(STARTING_PORT), i).next_base()
                == STARTING_PORT + 2 * i && crate::allocator::allocate_n(AllocatorModel::fresh(STARTING_PORT), i).can_allocate(),
        crate::allocator::allocate_n(AllocatorModel::fresh(STARTING_PORT), k).next == STARTING_PORT + 2 * k,
{
    assert forall|i: nat| i < k implies #[trigger] crate::allocator::allocate_n(AllocatorModel::fresh(STARTING_PORT), i).next_base()
        == STARTING_PORT + 2 * i && crate::allocator::allocate_n(AllocatorModel::fresh(STARTING_PORT), i).can_allocate() by {
        crate::allocator::law_allocations_from_fresh(STARTING_PORT, i);
    }
    crate::allocator::law_allocations_from_fresh(STARTING_PORT, k);
}

/// The answer to a match request, as the matchmaker receives it.
pub struct MatchReply {
    pub id: String,
    pub ip_address: String,
    pub lan_address: String,
    pub port: u32,
}

/// Turns the orchestrator's answer (or its absence) into the answer to a
/// match request; an error carries the message to report.
pub fn match_reply(response: Option<OrchestratorResponse>) -> (r: Result<MatchReply, String>)
    ensures
        match response {
            Some(OrchestratorResponse::ContainerCreationSuccess { id, wan_ip, lan_ip, port }) => r
                == Ok::<MatchReply, String>(
                MatchReply { id, ip_address: wan_ip, lan_address: lan_ip, port: port as u32 },
            ),
            Some(OrchestratorResponse::ContainerCreationError { error }) => r == Err::<
                MatchReply,
                String,
            >(error),
            None => r is Err && r->Err_0@ == "No response received"@,
        },
{
    match response {
        Some(OrchestratorResponse::ContainerCreationSuccess { id, wan_ip, lan_ip, port }) => {
            Ok(MatchReply { id, ip_address: wan_ip, lan_address: lan_ip, port: port as u32 })
        },
        Some(OrchestratorResponse::ContainerCreationError { error }) => Err(error),
        None => Err(String::from_str("No response received")),
    }
}

/// Turns the orchestrator's answer (or its absence) into an HTTP status and
/// body: 200 with the server's details, or 500 with the error message.
pub fn handler_reply(response: Option<OrchestratorResponse>) -> (r: (u16, OrchestratorResponse))
    ensures
        match response {
            Some(OrchestratorResponse::ContainerCreationSuccess { id, wan_ip, lan_ip, port }) => r
                == (200u16, OrchestratorResponse::ContainerCreationSuccess { id, wan_ip, lan_ip, port }),
            Some(OrchestratorResponse::ContainerCreationError { error }) => r == (
                500u16,
                OrchestratorResponse::ContainerCreationError { error },
            ),
            None => {
                &&& r.0 == 500
                &&& r.1 matches OrchestratorResponse::ContainerCreationError { error }
                &&& error@ == "No OrchestratorResponse"@
            },
        },
{
    match response {
        Some(OrchestratorResponse::ContainerCreationSuccess { id, wan_ip, lan_ip, port }) => (
            200,
            OrchestratorResponse::ContainerCreationSuccess { id, wan_ip, lan_ip, port },
        ),
        Some(OrchestratorResponse::ContainerCreationError { error }) => (
            500,
            OrchestratorResponse::ContainerCreationError { error },
        ),
        None => (
            500,
            OrchestratorResponse::ContainerCreationError {
                error: String::from_str("No OrchestratorResponse"),
            },
        ),
    }
}

} // verus!
