use chungustrator::orchestrator::{
    handler_reply, match_reply, ChungustratorConfig, OrchestratorResponse, OrchestratorState,
    STARTING_PORT,
};

fn config() -> ChungustratorConfig {
    ChungustratorConfig::new::<()>(Ok("1.2.3.4".to_string()), Ok("10.0.0.2".to_string()))
        .unwrap_or_else(|_| panic!("both settings are present"))
}

#[test]
fn config_from_settings() {
    let c = config();
    assert_eq!(c.wan_ip, "1.2.3.4");
    assert_eq!(c.lan_ip, "10.0.0.2");
}

#[test]
fn config_reports_first_missing_setting() {
    let r = ChungustratorConfig::new::<&str>(Err("no wan"), Err("no lan"));
    assert!(matches!(r, Err("no wan")));
    let r = ChungustratorConfig::new::<&str>(Ok("w".to_string()), Err("no lan"));
    assert!(matches!(r, Err("no lan")));
    let r = ChungustratorConfig::new::<&str>(Err("no wan"), Ok("l".to_string()));
    assert!(matches!(r, Err("no wan")));
}

#[test]
fn unset_config_is_empty() {
    let c = ChungustratorConfig::unset();
    assert_eq!(c.wan_ip, "");
    assert_eq!(c.lan_ip, "");
}

#[test]
fn successful_creation_answers_with_addresses_and_port() {
    let mut s = OrchestratorState::new::<()>(Ok(config()));
    assert!(s.can_begin_creation());
    let ports = s.begin_creation();
    assert_eq!(ports.all_ports(), [STARTING_PORT, STARTING_PORT + 1]);
    assert_eq!(STARTING_PORT, 28785);
    match s.finish_creation::<()>(ports, Ok("container-1".to_string())) {
        Ok(OrchestratorResponse::ContainerCreationSuccess { id, wan_ip, lan_ip, port }) => {
            assert_eq!(id, "container-1");
            assert_eq!(wan_ip, "1.2.3.4");
            assert_eq!(lan_ip, "10.0.0.2");
            assert_eq!(port, 28785);
        }
        _ => panic!("expected a success"),
    }
    assert_eq!(s.begin_creation().game_server_port(), 28787);
}

#[test]
fn failed_creation_hands_ports_back() {
    let mut s = OrchestratorState::new::<()>(Ok(config()));
    let first = s.begin_creation();
    assert_eq!(first.game_server_port(), 28785);
    let r = s.finish_creation(first, Err("engine down"));
    assert!(matches!(r, Err("engine down")));
    // The handed-back pair is the first to be reused.
    assert_eq!(s.begin_creation().game_server_port(), 28785);
    assert_eq!(s.begin_creation().game_server_port(), 28787);
}

#[test]
fn missing_config_gives_empty_addresses() {
    let mut s = OrchestratorState::new::<&str>(Err("WAN_IP not set"));
    let ports = s.begin_creation();
    match s.finish_creation::<()>(ports, Ok("c".to_string())) {
        Ok(OrchestratorResponse::ContainerCreationSuccess { wan_ip, lan_ip, .. }) => {
            assert_eq!(wan_ip, "");
            assert_eq!(lan_ip, "");
        }
        _ => panic!("expected a success"),
    }
}

fn success() -> OrchestratorResponse {
    OrchestratorResponse::ContainerCreationSuccess {
        id: "id7".to_string(),
        wan_ip: "w".to_string(),
        lan_ip: "l".to_string(),
        port: 28785,
    }
}

#[test]
fn match_reply_for_each_answer() {
    let ok = match_reply(Some(success()));
    match ok {
        Ok(r) => {
            assert_eq!(r.id, "id7");
            assert_eq!(r.ip_address, "w");
            assert_eq!(r.lan_address, "l");
            assert_eq!(r.port, 28785u32);
        }
        Err(_) => panic!("expected a reply"),
    }
    let err = match_reply(Some(OrchestratorResponse::ContainerCreationError {
        error: "boom".to_string(),
    }));
    assert_eq!(err.err().as_deref(), Some("boom"));
    let none = match_reply(None);
    assert_eq!(none.err().as_deref(), Some("No response received"));
}

#[test]
fn handler_reply_for_each_answer() {
    let (status, body) = handler_reply(Some(success()));
    assert_eq!(status, 200);
    assert!(matches!(body, OrchestratorResponse::ContainerCreationSuccess { port: 28785, .. }));
    let (status, body) = handler_reply(Some(OrchestratorResponse::ContainerCreationError {
        error: "bad".to_string(),
    }));
    assert_eq!(status, 500);
    match body {
        OrchestratorResponse::ContainerCreationError { error } => assert_eq!(error, "bad"),
        _ => panic!("expected an error body"),
    }
    let (status, body) = handler_reply(None);
    assert_eq!(status, 500);
    match body {
        OrchestratorResponse::ContainerCreationError { error } => {
            assert_eq!(error, "No OrchestratorResponse")
        }
        _ => panic!("expected an error body"),
    }
}

#[test]
fn creations_from_fresh_get_consecutive_pairs() {
    let mut s = OrchestratorState::new::<()>(Ok(config()));
    for i in 0..5u16 {
        let ports = s.begin_creation();
        assert_eq!(ports.all_ports(), [28785 + 2 * i, 28786 + 2 * i]);
        match s.finish_creation::<()>(ports, Ok(format!("c{}", i))) {
            Ok(OrchestratorResponse::ContainerCreationSuccess { port, .. }) => {
                assert_eq!(port, 28785 + 2 * i)
            }
            _ => panic!("expected a success"),
        }
    }
}
