use notice_client::config::{Config, Protocol};
use notice_client::message::{NoticeMessage, UtcTimestamp};
use notice_client::mqtt::{
    ConnectStep, ConnectionState, LoopAction, LoopEvent, MqttClient, RETRY_DELAY_MS,
};

fn config(server: &str, token: &str) -> Config {
    Config {
        server: server.to_string(),
        client_id: "desk-1".to_string(),
        topic: "notice/#".to_string(),
        token: token.to_string(),
    }
}

fn started(client: &mut MqttClient) -> u64 {
    match client.connect() {
        Ok(ConnectStep::Start(plan)) => plan.session,
        _ => panic!("expected a new session"),
    }
}

fn notice(title: &str) -> NoticeMessage {
    NoticeMessage {
        title: title.to_string(),
        content: "disk full".to_string(),
        extra: None,
        timestamp: UtcTimestamp { seconds: 1_700_000_000, nanos: 5 },
    }
}

#[test]
fn connect_twice_is_idempotent() {
    let mut c = MqttClient::new(config("tcp://localhost:1883", ""));
    assert_eq!(*c.state(), ConnectionState::Disconnected);
    let s = started(&mut c);
    assert_eq!(*c.state(), ConnectionState::Connecting);
    assert!(matches!(c.connect(), Ok(ConnectStep::AlreadyActive)));
    assert_eq!(*c.state(), ConnectionState::Connecting);
    let acts = c.on_event(s, LoopEvent::ConnAck);
    assert!(matches!(acts[0], LoopAction::EmitState(ConnectionState::Connected)));
    assert!(matches!(c.connect(), Ok(ConnectStep::AlreadyActive)));
    assert_eq!(*c.state(), ConnectionState::Connected);
}

#[test]
fn connect_builds_transport_settings() {
    let mut c = MqttClient::new(config("wss://example.com/custom", "SECRET-REDACTED"));
    match c.connect() {
        Ok(ConnectStep::Start(plan)) => {
            assert_eq!(plan.topic, "notice/#");
            assert_eq!(plan.settings.protocol, Protocol::Wss);
            assert_eq!(plan.settings.broker, "wss://example.com:8084/custom");
            assert_eq!(plan.settings.port, 8084);
            assert_eq!(plan.settings.client_id, "desk-1");
            assert_eq!(plan.settings.keep_alive_secs, 30);
            assert!(plan.settings.clean_session);
            let (user, pass) = plan.settings.credentials.unwrap();
            assert_eq!(user, "SECRET-REDACTED");
            assert_eq!(pass, "");
        }
        _ => panic!("expected a new session"),
    }
    let mut plain = MqttClient::new(config("tcp://broker:1884", ""));
    match plain.connect() {
        Ok(ConnectStep::Start(plan)) => {
            assert_eq!(plan.settings.broker, "broker");
            assert_eq!(plan.settings.port, 1884);
            assert!(plan.settings.credentials.is_none());
        }
        _ => panic!("expected a new session"),
    }
}

#[test]
fn connect_with_bad_address_stays_disconnected() {
    let mut c = MqttClient::new(config("tcp://host:notaport", ""));
    let e = match c.connect() {
        Err(e) => e,
        Ok(_) => panic!("expected an error"),
    };
    assert!(e.contains("notaport"));
    assert_eq!(*c.state(), ConnectionState::Disconnected);
}

#[test]
fn update_config_applies_on_next_connect() {
    let mut c = MqttClient::new(config("tcp://:1883", ""));
    assert!(c.connect().is_err());
    c.update_config(config("tcp://good:1883", ""));
    assert_eq!(c.config().server, "tcp://good:1883");
    assert_eq!(*c.state(), ConnectionState::Disconnected);
    started(&mut c);
}

#[test]
fn disconnect_ends_session() {
    let mut c = MqttClient::new(config("tcp://localhost:1883", ""));
    let s = started(&mut c);
    assert_eq!(c.disconnect(), Some(s));
    assert_eq!(*c.state(), ConnectionState::Disconnected);
    assert_eq!(c.disconnect(), None);
    let acts = c.on_event(s, LoopEvent::ConnAck);
    assert_eq!(acts.len(), 1);
    assert!(matches!(acts[0], LoopAction::Stop));
    let s2 = started(&mut c);
    assert_ne!(s, s2);
}

#[test]
fn one_disconnected_event_per_loss() {
    let mut c = MqttClient::new(config("tcp://localhost:1883", ""));
    let s = started(&mut c);
    c.on_event(s, LoopEvent::ConnAck);
    let mut disconnected = 0;
    for _ in 0..4 {
        for a in c.on_event(s, LoopEvent::TransportError) {
            match a {
                LoopAction::EmitState(ConnectionState::Disconnected) => disconnected += 1,
                LoopAction::Backoff(ms) => assert_eq!(ms, RETRY_DELAY_MS),
                _ => panic!("unexpected action"),
            }
        }
    }
    assert_eq!(disconnected, 1);
    assert_eq!(*c.state(), ConnectionState::Connecting);
    let acts = c.on_event(s, LoopEvent::ConnAck);
    assert_eq!(acts.len(), 2);
    match &acts[1] {
        LoopAction::Subscribe(t) => assert_eq!(t, "notice/#"),
        _ => panic!("expected a subscription"),
    }
    let again = c.on_event(s, LoopEvent::TransportError);
    assert!(matches!(again[0], LoopAction::EmitState(ConnectionState::Disconnected)));
}

#[test]
fn undecodable_payload_produces_no_action() {
    let mut c = MqttClient::new(config("tcp://localhost:1883", ""));
    let s = started(&mut c);
    c.on_event(s, LoopEvent::ConnAck);
    let acts = c.on_event(s, LoopEvent::Publish { topic: "notice/a".to_string(), message: None });
    assert!(acts.is_empty());
    assert!(c.on_event(s, LoopEvent::Other).is_empty());
}

#[test]
fn publish_emits_event_and_notification() {
    let mut c = MqttClient::new(config("tcp://localhost:1883", ""));
    let s = started(&mut c);
    let acts = c.on_event(s, LoopEvent::Publish { topic: "notice/a".to_string(), message: Some(notice("")) });
    assert_eq!(acts.len(), 2);
    match &acts[0] {
        LoopAction::EmitMessage(ev) => {
            assert_eq!(ev.topic, "notice/a");
            assert_eq!(ev.message.content, "disk full");
            assert_eq!(ev.message.timestamp, UtcTimestamp { seconds: 1_700_000_000, nanos: 5 });
        }
        _ => panic!("expected a message event"),
    }
    match &acts[1] {
        LoopAction::Notify { title, body } => {
            assert_eq!(title, "Notice");
            assert_eq!(body, "disk full");
        }
        _ => panic!("expected a notification"),
    }
}

#[test]
fn state_names_and_labels() {
    assert_eq!(ConnectionState::Connected.name(), "Connected");
    assert_eq!(ConnectionState::Disconnected.name(), "Disconnected");
    assert_eq!(ConnectionState::Connecting.event_label(), "connecting");
    assert_eq!(ConnectionState::Disconnected.event_label(), "disconnected");
}
