use vstd::prelude::*;

verus! {

/// The pair of host ports that one game server occupies: the game port and,
/// right above it, the port of its server-query client.
pub struct ServerPorts {
    game_server_port: u16,
    server_query_client_port: u16,
}

impl ServerPorts {
    /// The query-client port always sits directly above the game port.
    #[verifier::type_invariant]
    pub open spec fn adjacent(self) -> bool {
        self.query() == self.game() + 1
    }

    /// The game port of the pair.
    pub closed spec fn game(self) -> u16 {
        self.game_server_port
    }

    /// The server-query client port of the pair.
    pub closed spec fn query(self) -> u16 {
        self.server_query_client_port
    }

    /// The pair based at `port`; `port + 1` must still be a port.
    pub fn new(port: u16) -> (r: Self)
        requires
            port < u16::MAX,
        ensures
            r.game() == port,
            r.query() == port + 1,
    {
        Self { game_server_port: port, server_query_client_port: port + 1 }
    }

    /// Both ports, the game port first.
    pub fn all_ports(&self) -> (r: [u16; 2])
        ensures
            r@ == seq![self.game(), self.query()],
    {
        [self.game_server_port, self.server_query_client_port]
    }

    /// The game port.
    pub fn game_server_port(&self) -> (r: u16)
        ensures
            r == self.game(),
    {
        self.game_server_port
    }

    /// The server-query client port.
    pub fn server_query_client_port(&self) -> (r: u16)
        ensures
            r == self.query(),
    {
        self.server_query_client_port
    }
}

} // verus!
