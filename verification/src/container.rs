use vstd::prelude::*;
use crate::text::{decimal, decimal_string};

verus! {

/// One published port: the container's port key (`"<port>/<protocol>"`) and
/// the host address and host port it is published on.
pub struct PortBinding {
    pub container_port: String,
    pub host_ip: String,
    pub host_port: String,
}

/// The abstract value of a [`PortBinding`].
pub struct PortBindingView {
    pub container_port: Seq<char>,
    pub host_ip: Seq<char>,
    pub host_port: Seq<char>,
}

impl View for PortBinding {
    type V = PortBindingView;

    open spec fn view(&self) -> PortBindingView {
        PortBindingView {
            container_port: self.container_port@,
            host_ip: self.host_ip@,
            host_port: self.host_port@,
        }
    }
}

/// What the container engine is asked to create: the image, the
/// environment, the ports the container exposes and publishes, extra host
/// names, and the network mode. Fields that are empty or `None` are left to
/// the engine's defaults.
pub struct ContainerSpec {
    pub image: String,
    pub env: Vec<String>,
    pub exposed_ports: Vec<String>,
    pub port_bindings: Vec<PortBinding>,
    pub extra_hosts: Vec<String>,
    pub network_mode: Option<String>,
}

/// The abstract value of a [`ContainerSpec`].
pub struct ContainerSpecView {
    pub image: Seq<char>,
    pub env: Seq<Seq<char>>,
    pub exposed_ports: Seq<Seq<char>>,
    pub port_bindings: Seq<PortBindingView>,
    pub extra_hosts: Seq<Seq<char>>,
    pub network_mode: Option<Seq<char>>,
}

/// The views of a sequence of strings.
pub open spec fn strings(v: Seq<String>) -> Seq<Seq<char>> {
    v.map_values(|s: String| s@)
}

impl View for ContainerSpec {
    type V = ContainerSpecView;

    open spec fn view(&self) -> ContainerSpecView {
        ContainerSpecView {
            image: self.image@,
            env: strings(self.env@),
            exposed_ports: strings(self.exposed_ports@),
            port_bindings: self.port_bindings@.map_values(|b: PortBinding| b@),
            extra_hosts: strings(self.extra_hosts@),
            network_mode: match self.network_mode {
                Some(m) => Some(m@),
                None => None,
            },
        }
    }
}

/// The port key `"<port>/tcp"`.
pub open spec fn tcp_key(port: u16) -> Seq<char> {
    decimal(port as nat) + "/tcp"@
}

/// The port key `"<port>/udp"`.
pub open spec fn udp_key(port: u16) -> Seq<char> {
    decimal(port as nat) + "/udp"@
}

/// The game port published on every host address under `key`.
pub open spec fn published(key: Seq<char>, game_port: u16) -> PortBindingView {
    PortBindingView { container_port: key, host_ip: "0.0.0.0"@, host_port: decimal(game_port as nat) }
}

/// The game-server container for the pair `(game_port, query_port)`.
pub open spec fn game_server_container_view(game_port: u16, query_port: u16) -> ContainerSpecView {
    ContainerSpecView {
        image: "chungusmod:latest"@,
        env: seq![
            "GAME_SERVER_PORT="@ + decimal(game_port as nat),
            "CHUNGUS_PEER_ADDRESS=host.docker.internal"@,
            "CHUNGUS_PEER_PORT=30000"@,
        ],
        exposed_ports: seq![
            tcp_key(game_port),
            udp_key(game_port),
            tcp_key(query_port),
            udp_key(query_port),
        ],
        port_bindings: seq![
            published(tcp_key(game_port), game_port),
            published(udp_key(game_port), game_port),
        ],
        extra_hosts: seq!["host.docker.internal:host-gateway"@],
        network_mode: None,
    }
}

/// The server-query client container that shares the network of the game
/// server container `game_container_id`.
pub open spec fn query_client_container_view(
    game_container_id: Seq<char>,
    game_port: u16,
    secret: Seq<char>,
    key: Seq<char>,
) -> ContainerSpecView {
    ContainerSpecView {
        image: "sqc:latest"@,
        env: seq![
            "PLAYER_SERVICE_IP=http://player:3000"@,
            "AUTH_SERVICE_IP=http://auth:8081"@,
            "GAME_SERVER_IP=localhost"@,
            "GAME_SERVER_PORT="@ + decimal(game_port as nat),
            "SECRET_CHUNGUS="@ + secret,
            "CHUNGUS_KEY="@ + key,
        ],
        exposed_ports: seq![],
        port_bindings: seq![],
        extra_hosts: seq![],
        network_mode: Some("container:"@ + game_container_id),
    }
}

fn joined(a: &str, b: &str) -> (r: String)
    ensures
        r@ == a@ + b@,
{
    let mut r = String::from_str(a);
    r.append(b);
    r
}

fn owned(a: &str) -> (r: String)
    ensures
        r@ == a@,
{
    String::from_str(a)
}

fn port_binding(key: &String, game_port: u16) -> (r: PortBinding)
    ensures
        r@ == published(key@, game_port),
{
    PortBinding {
        container_port: key.clone(),
        host_ip: owned("0.0.0.0"),
        host_port: decimal_string(game_port),
    }
}

/// Plans the game-server container for the pair `(game_port, query_port)`:
/// it exposes both ports over TCP and UDP and publishes the game port on
/// every host address.
pub fn game_server_container(game_port: u16, query_port: u16) -> (r: ContainerSpec)
    ensures
        r@ == game_server_container_view(game_port, query_port),
{
    let game = decimal_string(game_port);
    let query = decimal_string(query_port);
    let game_tcp = joined(game.as_str(), "/tcp");
    let game_udp = joined(game.as_str(), "/udp");

    let mut port_bindings: Vec<PortBinding> = Vec::new();
    port_bindings.push(port_binding(&game_tcp, game_port));
    port_bindings.push(port_binding(&game_udp, game_port));

    let mut env: Vec<String> = Vec::new();
    env.push(joined("GAME_SERVER_PORT=", game.as_str()));
    env.push(owned("CHUNGUS_PEER_ADDRESS=host.docker.internal"));
    env.push(owned("CHUNGUS_PEER_PORT=30000"));

    let mut exposed_ports: Vec<String> = Vec::new();
    exposed_ports.push(game_tcp);
    exposed_ports.push(game_udp);
    exposed_ports.push(joined(query.as_str(), "/tcp"));
    exposed_ports.push(joined(query.as_str(), "/udp"));

    let mut extra_hosts: Vec<String> = Vec::new();
    extra_hosts.push(owned("host.docker.internal:host-gateway"));

    let r = ContainerSpec {
        image: owned("chungusmod:latest"),
        env,
        exposed_ports,
        port_bindings,
        extra_hosts,
        network_mode: None,
    };
    proof {
        let v = game_server_container_view(game_port, query_port);
        assert(r@.env =~= v.env);
        assert(r@.exposed_ports =~= v.exposed_ports);
        assert(r@.port_bindings =~= v.port_bindings);
        assert(r@.extra_hosts =~= v.extra_hosts);
    }
    r
}

/// Plans the server-query client container: it joins the network of the
/// game-server container `game_container_id` and is told the game port and
/// the two credentials `secret` and `key`.
pub fn query_client_container(
    game_container_id: &str,
    game_port: u16,
    secret: &str,
    key: &str,
) -> (r: ContainerSpec)
    ensures
        r@ == query_client_container_view(game_container_id@, game_port, secret@, key@),
{
    let game = decimal_string(game_port);
    let mut env: Vec<String> = Vec::new();
    env.push(owned("PLAYER_SERVICE_IP=http://player:3000"));
    env.push(owned("AUTH_SERVICE_IP=http://auth:8081"));
    env.push(owned("GAME_SERVER_IP=localhost"));
    env.push(joined("GAME_SERVER_PORT=", game.as_str()));
    env.push(joined("SECRET_CHUNGUS=", secret));
    env.push(joined("CHUNGUS_KEY=", key));

    let r = ContainerSpec {
        image: owned("sqc:latest"),
        env,
        exposed_ports: Vec::new(),
        port_bindings: Vec::new(),
        extra_hosts: Vec::new(),
        network_mode: Some(joined("container:", game_container_id)),
    };
    proof {
        let v = query_client_container_view(game_container_id@, game_port, secret@, key@);
        assert(r@.env =~= v.env);
        assert(r@.exposed_ports =~= v.exposed_ports);
        assert(r@.port_bindings =~= v.port_bindings);
        assert(r@.extra_hosts =~= v.extra_hosts);
    }
    r
}

/// `s` is `prefix` followed by exactly `rest`.
pub open spec fn splits(s: Seq<char>, prefix: Seq<char>, rest: Seq<char>) -> bool {
    &&& s.len() == prefix.len() + rest.len()
    &&& s.subrange(0, prefix.len() as int) == prefix
    &&& s.subrange(prefix.len() as int, s.len() as int) == rest
}

/// `s` is the decimal number `n`: digits only, no leading zero, reading
/// back as `n`.
pub open spec fn spells(s: Seq<char>, n: int) -> bool {
    &&& s.len() >= 1
    &&& forall|i: int| 0 <= i < s.len() ==> '0' <= #[trigger] s[i] <= '9'
    &&& (s.len() > 1 ==> s[0] != '0')
    &&& crate::text::digits_value(s) == n
}

/// `s` is `prefix` followed by the decimal number `n`.
pub open spec fn carries_number(s: Seq<char>, prefix: Seq<char>, n: int) -> bool {
    &&& s.len() > prefix.len()
    &&& s.subrange(0, prefix.len() as int) == prefix
    &&& spells(s.subrange(prefix.len() as int, s.len() as int), n)
}

/// `s` is the port key of `port` for protocol `suffix` (`"/tcp"` or
/// `"/udp"`): the decimal port number followed by the suffix.
pub open spec fn is_port_key(s: Seq<char>, port: int, suffix: Seq<char>) -> bool {
    &&& s.len() > suffix.len()
    &&& s.subrange(s.len() - suffix.len(), s.len() as int) == suffix
    &&& spells(s.subrange(0, s.len() - suffix.len()), port)
}

proof fn lemma_number_then(n: u16, suffix: Seq<char>)
    ensures
        is_port_key(decimal(n as nat) + suffix, n as int, suffix),
        spells(decimal(n as nat), n as int),
{
    crate::text::law_decimal_reads_back(n as nat);
    let d = decimal(n as nat);
    let s = d + suffix;
    assert(s.subrange(s.len() - suffix.len(), s.len() as int) =~= suffix);
    assert(s.subrange(0, s.len() - suffix.len()) =~= d);
}

proof fn lemma_prefix_then_number(prefix: Seq<char>, n: u16)
    ensures
        carries_number(prefix + decimal(n as nat), prefix, n as int),
{
    crate::text::law_decimal_reads_back(n as nat);
    let d = decimal(n as nat);
    let s = prefix + d;
    assert(s.subrange(0, prefix.len() as int) =~= prefix);
    assert(s.subrange(prefix.len() as int, s.len() as int) =~= d);
}

proof fn lemma_prefix_then(prefix: Seq<char>, rest: Seq<char>)
    ensures
        splits(prefix + rest, prefix, rest),
{
    let s = prefix + rest;
    assert(s.subrange(0, prefix.len() as int) =~= prefix);
    assert(s.subrange(prefix.len() as int, s.len() as int) =~= rest);
}

/// The game-server plan for the pair `(game_port, query_port)`, for every
/// pair: both published bindings put the container's game port, over TCP
/// and over UDP, on host port `game_port` of every host address; the
/// container exposes the game port and the query port over TCP and UDP; and
/// it is told its game port in `GAME_SERVER_PORT`.
pub proof fn law_game_server_plan(game_port: u16, query_port: u16)
    ensures
        ({
            let v = game_server_container_view(game_port, query_port);
            &&& v.image == "chungusmod:latest"@
            &&& v.port_bindings.len() == 2
            &&& spells(v.port_bindings[0].host_port, game_port as int)
            &&& spells(v.port_bindings[1].host_port, game_port as int)
            &&& v.port_bindings[0].host_ip == "0.0.0.0"@
            &&& v.port_bindings[1].host_ip == "0.0.0.0"@
            &&& is_port_key(v.port_bindings[0].container_port, game_port as int, "/tcp"@)
            &&& is_port_key(v.port_bindings[1].container_port, game_port as int, "/udp"@)
            &&& v.exposed_ports.len() == 4
            &&& is_port_key(v.exposed_ports[0], game_port as int, "/tcp"@)
            &&& is_port_key(v.exposed_ports[1], game_port as int, "/udp"@)
            &&& is_port_key(v.exposed_ports[2], query_port as int, "/tcp"@)
            &&& is_port_key(v.exposed_ports[3], query_port as int, "/udp"@)
            &&& v.env.len() == 3
            &&& carries_number(v.env[0], "GAME_SERVER_PORT="@, game_port as int)
            &&& v.env[1] == "CHUNGUS_PEER_ADDRESS=host.docker.internal"@
            &&& v.env[2] == "CHUNGUS_PEER_PORT=30000"@
            &&& v.extra_hosts == seq!["host.docker.internal:host-gateway"@]
            &&& v.network_mode is None
        }),
{
    reveal_strlit("/tcp");
    reveal_strlit("/udp");
    lemma_number_then(game_port, "/tcp"@);
    lemma_number_then(game_port, "/udp"@);
    lemma_number_then(query_port, "/tcp"@);
    lemma_number_then(query_port, "/udp"@);
    lemma_prefix_then_number("GAME_SERVER_PORT="@, game_port);
}

/// The server-query client plan, for every game container id, game port and
/// pair of credentials of any length: it joins the network of exactly that
/// container, is told that game port, and receives both credentials whole.
pub proof fn law_query_client_plan(
    game_container_id: Seq<char>,
    game_port: u16,
    secret: Seq<char>,
    key: Seq<char>,
)
    ensures
        ({
            let v = query_client_container_view(game_container_id, game_port, secret, key);
            &&& v.image == "sqc:latest"@
            &&& v.env.len() == 6
            &&& v.env[0] == "PLAYER_SERVICE_IP=http://player:3000"@
            &&& v.env[1] == "AUTH_SERVICE_IP=http://auth:8081"@
            &&& v.env[2] == "GAME_SERVER_IP=localhost"@
            &&& carries_number(v.env[3], "GAME_SERVER_PORT="@, game_port as int)
            &&& splits(v.env[4], "SECRET_CHUNGUS="@, secret)
            &&& v.env[4].len() == 15 + secret.len()
            &&& splits(v.env[5], "CHUNGUS_KEY="@, key)
            &&& v.env[5].len() == 12 + key.len()
            &&& v.network_mode matches Some(mode) && splits(mode, "container:"@, game_container_id)
            &&& v.exposed_ports.len() == 0
            &&& v.port_bindings.len() == 0
            &&& v.extra_hosts.len() == 0
        }),
{
    reveal_strlit("SECRET_CHUNGUS=");
    reveal_strlit("CHUNGUS_KEY=");
    lemma_prefix_then_number("GAME_SERVER_PORT="@, game_port);
    lemma_prefix_then("SECRET_CHUNGUS="@, secret);
    lemma_prefix_then("CHUNGUS_KEY="@, key);
    lemma_prefix_then("container:"@, game_container_id);
}

} // verus!
