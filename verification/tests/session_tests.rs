use swarmbook::session::{
    EngineAction, EngineOccurrence, IdentifyController, IdentifyEvent, IdentifyInput,
    IdentifyCommand, PingCommand, PingController, PingEvent, PingInput, SessionState,
};

#[test]
fn dial_command_becomes_an_engine_dial() {
    let mut c = PingController::new();
    let (action, event) = c.step(PingInput::Cmd(PingCommand::Dial(String::from(
        "/ip4/127.0.0.1/tcp/4001",
    ))));
    assert_eq!(action, EngineAction::Dial(String::from("/ip4/127.0.0.1/tcp/4001")));
    assert_eq!(event, None);
    assert_eq!(c.state, SessionState::Running);
}

#[test]
fn disconnect_with_no_connection_is_a_quiet_no_op() {
    let mut c = PingController::new();
    // Dial, then immediately disconnect the peer: the loop drains one
    // command at a time, emits nothing for either, and keeps running.
    let (a1, e1) = c.step(PingInput::Cmd(PingCommand::Dial(String::from("/ip4/9.9.9.9/tcp/1"))));
    let (a2, e2) = c.step(PingInput::Cmd(PingCommand::Disconnect(String::from("peer-a"))));
    assert_eq!(a1, EngineAction::Dial(String::from("/ip4/9.9.9.9/tcp/1")));
    assert_eq!(a2, EngineAction::Disconnect(String::from("peer-a")));
    assert_eq!(e1, None);
    assert_eq!(e2, None);
    assert_eq!(c.state, SessionState::Running);
}

#[test]
fn listening_event_arrives_before_any_connection_event() {
    let mut c = PingController::new();
    let (_, e1) = c.step(PingInput::Occ(EngineOccurrence::NewListenAddr {
        addr: String::from("/ip4/127.0.0.1/tcp/39211"),
    }));
    let (_, e2) = c.step(PingInput::Occ(EngineOccurrence::ConnectionEstablished {
        peer_id: String::from("peer-b"),
    }));
    assert_eq!(
        e1,
        Some(PingEvent::Listening { addr: String::from("/ip4/127.0.0.1/tcp/39211") })
    );
    assert_eq!(e2, Some(PingEvent::Connected { peer_id: String::from("peer-b") }));
}

#[test]
fn ping_outcomes_translate_to_ping_and_error_events() {
    let mut c = PingController::new();
    let (_, ok) = c.step(PingInput::Occ(EngineOccurrence::PingOutcome {
        peer_id: String::from("peer-c"),
        outcome: Ok(42),
    }));
    assert_eq!(ok, Some(PingEvent::Ping { peer_id: String::from("peer-c"), rtt_ms: 42 }));
    let (_, err) = c.step(PingInput::Occ(EngineOccurrence::PingOutcome {
        peer_id: String::from("peer-c"),
        outcome: Err(String::from("ping timeout")),
    }));
    assert_eq!(err, Some(PingEvent::Error { message: String::from("ping timeout") }));
    assert_eq!(c.state, SessionState::Running);
}

#[test]
fn unmodeled_occurrences_are_dropped_silently() {
    let mut c = PingController::new();
    let (a1, e1) = c.step(PingInput::Occ(EngineOccurrence::Unmodeled));
    let (a2, e2) = c.step(PingInput::Occ(EngineOccurrence::IdentifyReceived {
        peer_id: String::from("peer-d"),
        protocol_version: String::from("proto/1"),
        agent_version: String::from("agent/1"),
        listen_addrs: vec![],
    }));
    assert_eq!(a1, EngineAction::NoCall);
    assert_eq!(a2, EngineAction::NoCall);
    assert_eq!(e1, None);
    assert_eq!(e2, None);
}

#[test]
fn stop_is_idempotent_and_silences_the_loop() {
    let mut c = PingController::new();
    let (a, e) = c.step(PingInput::Cmd(PingCommand::Stop));
    assert_eq!(a, EngineAction::NoCall);
    assert_eq!(e, None);
    assert_eq!(c.state, SessionState::Terminated);
    // Pending occurrences and further commands emit nothing after exit.
    let (a, e) = c.step(PingInput::Occ(EngineOccurrence::ConnectionEstablished {
        peer_id: String::from("peer-e"),
    }));
    assert_eq!(a, EngineAction::NoCall);
    assert_eq!(e, None);
    let (a, e) = c.step(PingInput::Cmd(PingCommand::Stop));
    assert_eq!(a, EngineAction::NoCall);
    assert_eq!(e, None);
    assert_eq!(c.state, SessionState::Terminated);
}

#[test]
fn identify_session_reports_remote_identification() {
    let mut c = IdentifyController::new();
    let (action, event) = c.step(IdentifyInput::Occ(EngineOccurrence::IdentifyReceived {
        peer_id: String::from("peer-f"),
        protocol_version: String::from("/swarmbook/0.1.0"),
        agent_version: String::from("/swarmbook/0.1.0"),
        listen_addrs: vec![String::from("/ip4/10.0.0.2/tcp/4001")],
    }));
    assert_eq!(action, EngineAction::NoCall);
    assert_eq!(
        event,
        Some(IdentifyEvent::Identified {
            peer_id: String::from("peer-f"),
            protocol_version: String::from("/swarmbook/0.1.0"),
            agent_version: String::from("/swarmbook/0.1.0"),
            listen_addrs: vec![String::from("/ip4/10.0.0.2/tcp/4001")],
        })
    );
    let (_, housekeeping) = c.step(IdentifyInput::Occ(EngineOccurrence::IdentifyHousekeeping));
    assert_eq!(housekeeping, None);
}

#[test]
fn identify_stop_ends_the_loop() {
    let mut c = IdentifyController::new();
    let (_, e) = c.step(IdentifyInput::Cmd(IdentifyCommand::Stop));
    assert_eq!(e, None);
    assert_eq!(c.state, SessionState::Terminated);
    let (_, e) = c.step(IdentifyInput::Occ(EngineOccurrence::NewListenAddr {
        addr: String::from("/ip4/0.0.0.0/tcp/1"),
    }));
    assert_eq!(e, None);
}

#[test]
fn two_sessions_connect_and_exchange_pings() {
    // Session X dials session Y's advertised listening address; each
    // observes a connection for the other's identifier, then X observes
    // a latency sample for Y.
    let x_id = String::from("peer-x");
    let y_id = String::from("peer-y");
    let mut x = PingController::new();
    let mut y = PingController::new();

    let (_, y_listening) = y.step(PingInput::Occ(EngineOccurrence::NewListenAddr {
        addr: String::from("/ip4/127.0.0.1/tcp/40001"),
    }));
    let y_addr = match y_listening {
        Some(PingEvent::Listening { addr }) => addr,
        other => panic!("expected a listening event, got {other:?}"),
    };

    let (x_action, _) = x.step(PingInput::Cmd(PingCommand::Dial(y_addr.clone())));
    assert_eq!(x_action, EngineAction::Dial(y_addr));

    let (_, x_sees) = x.step(PingInput::Occ(EngineOccurrence::ConnectionEstablished {
        peer_id: y_id.clone(),
    }));
    let (_, y_sees) = y.step(PingInput::Occ(EngineOccurrence::ConnectionEstablished {
        peer_id: x_id.clone(),
    }));
    assert_eq!(x_sees, Some(PingEvent::Connected { peer_id: y_id.clone() }));
    assert_eq!(y_sees, Some(PingEvent::Connected { peer_id: x_id }));

    let (_, sample) = x.step(PingInput::Occ(EngineOccurrence::PingOutcome {
        peer_id: y_id.clone(),
        outcome: Ok(3),
    }));
    match sample {
        Some(PingEvent::Ping { peer_id, rtt_ms }) => {
            assert_eq!(peer_id, y_id);
            assert_eq!(rtt_ms, 3);
        }
        other => panic!("expected a ping sample, got {other:?}"),
    }
}
