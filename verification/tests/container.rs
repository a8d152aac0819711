use chungustrator::container::{game_server_container, query_client_container};
use chungustrator::text::decimal_string;

#[test]
fn decimal_notation() {
    assert_eq!(decimal_string(0), "0");
    assert_eq!(decimal_string(7), "7");
    assert_eq!(decimal_string(10), "10");
    assert_eq!(decimal_string(28785), "28785");
    assert_eq!(decimal_string(65535), "65535");
    for n in [1u16, 9, 99, 100, 1234, 30000, 65534] {
        assert_eq!(decimal_string(n), n.to_string());
    }
}

#[test]
fn game_server_container_plan() {
    let c = game_server_container(28785, 28786);
    assert_eq!(c.image, "chungusmod:latest");
    assert_eq!(
        c.env,
        vec![
            "GAME_SERVER_PORT=28785".to_string(),
            "CHUNGUS_PEER_ADDRESS=host.docker.internal".to_string(),
            "CHUNGUS_PEER_PORT=30000".to_string(),
        ]
    );
    assert_eq!(
        c.exposed_ports,
        vec!["28785/tcp", "28785/udp", "28786/tcp", "28786/udp"]
    );
    assert_eq!(c.port_bindings.len(), 2);
    assert_eq!(c.port_bindings[0].container_port, "28785/tcp");
    assert_eq!(c.port_bindings[0].host_ip, "0.0.0.0");
    assert_eq!(c.port_bindings[0].host_port, "28785");
    assert_eq!(c.port_bindings[1].container_port, "28785/udp");
    assert_eq!(c.port_bindings[1].host_ip, "0.0.0.0");
    assert_eq!(c.port_bindings[1].host_port, "28785");
    assert_eq!(c.extra_hosts, vec!["host.docker.internal:host-gateway"]);
    assert!(c.network_mode.is_none());
}

#[test]
fn query_client_container_plan() {
    let c = query_client_container("abc123", 28785, "s3", "k9");
    assert_eq!(c.image, "sqc:latest");
    assert_eq!(
        c.env,
        vec![
            "PLAYER_SERVICE_IP=http://player:3000",
            "AUTH_SERVICE_IP=http://auth:8081",
            "GAME_SERVER_IP=localhost",
            "GAME_SERVER_PORT=28785",
            "SECRET_CHUNGUS=s3",
            "CHUNGUS_KEY=k9",
        ]
    );
    assert!(c.exposed_ports.is_empty());
    assert!(c.port_bindings.is_empty());
    assert!(c.extra_hosts.is_empty());
    assert_eq!(c.network_mode.as_deref(), Some("container:abc123"));
}

#[test]
fn query_client_with_missing_credentials() {
    let c = query_client_container("x", 7, "", "");
    assert_eq!(c.env[3], "GAME_SERVER_PORT=7");
    assert_eq!(c.env[4], "SECRET_CHUNGUS=");
    assert_eq!(c.env[5], "CHUNGUS_KEY=");
}
