use minecraftd::packet::{Packet, ProtocolState};
use minecraftd::proxy::{decide_route, fallback_step, refusal_message, status_response_for, FallbackState, ProxyAction};
use minecraftd::status::ServerStatus;

#[test]
fn refusal_messages() {
    assert_eq!(refusal_message(Some(ServerStatus::Ready)), None);
    assert_eq!(
        refusal_message(Some(ServerStatus::Starting { restarting: false })).unwrap(),
        "Server is starting up, please try again later"
    );
    assert_eq!(
        refusal_message(Some(ServerStatus::Starting { restarting: true })).unwrap(),
        "Server is restarting, please try again later"
    );
    assert_eq!(
        refusal_message(Some(ServerStatus::Stopping { restarting: true })).unwrap(),
        "Server is restarting, please try again later"
    );
    assert_eq!(refusal_message(Some(ServerStatus::Stopping { restarting: false })).unwrap(), "Server is stopping.");
    assert_eq!(refusal_message(None).unwrap(), "Server is not running or does not exist");
}

#[test]
fn ready_server_is_forwarded() {
    match decide_route(ProtocolState::Login, Some((ServerStatus::Ready, 30007))) {
        ProxyAction::Forward { server_port } => assert_eq!(server_port, 30007),
        other => panic!("unexpected {:?}", other),
    }
    match decide_route(ProtocolState::Status, Some((ServerStatus::Ready, 30008))) {
        ProxyAction::Forward { server_port } => assert_eq!(server_port, 30008),
        other => panic!("unexpected {:?}", other),
    }
}

#[test]
fn unknown_host_login_gets_disconnect() {
    match decide_route(ProtocolState::Login, None) {
        ProxyAction::Disconnect { packet: Packet::Disconnect { reason } } => {
            assert_eq!(reason, "\"Server is not running or does not exist\"");
            assert!(reason.contains("not running or does not exist"));
        }
        other => panic!("unexpected {:?}", other),
    }
    match decide_route(ProtocolState::Transfer, Some((ServerStatus::Stopping { restarting: false }, 1))) {
        ProxyAction::Disconnect { packet: Packet::Disconnect { reason } } => assert_eq!(reason, "\"Server is stopping.\""),
        other => panic!("unexpected {:?}", other),
    }
}

#[test]
fn starting_server_status_fallback_exchange() {
    let reason = match decide_route(ProtocolState::Status, Some((ServerStatus::Starting { restarting: false }, 1))) {
        ProxyAction::FallbackStatus { reason } => reason,
        other => panic!("unexpected {:?}", other),
    };
    assert!(reason.contains("starting up"));
    let (state, reply) = fallback_step(FallbackState::AwaitStatusRequest, &Packet::StatusRequest, &reason);
    assert_eq!(state, FallbackState::AwaitPingRequest);
    match reply {
        Some(Packet::StatusResponse { json_response }) => {
            assert_eq!(
                json_response,
                "{\"version\":{\"name\":\"\",\"protocol\":0},\"description\":\"Server is starting up, please try again later\"}"
            );
        }
        other => panic!("unexpected {:?}", other),
    }
    let (state, reply) = fallback_step(state, &Packet::PingRequest { timestamp: 123 }, &reason);
    assert_eq!(state, FallbackState::Closed);
    assert!(matches!(reply, Some(Packet::PongResponse { timestamp: 123 })));
    let (state, reply) = fallback_step(state, &Packet::StatusRequest, &reason);
    assert_eq!(state, FallbackState::Closed);
    assert!(reply.is_none());
}

#[test]
fn fallback_rejects_unexpected_packet() {
    let (state, reply) = fallback_step(FallbackState::AwaitStatusRequest, &Packet::PingRequest { timestamp: 1 }, "x");
    assert_eq!(state, FallbackState::Closed);
    assert!(reply.is_none());
}

#[test]
fn status_response_escapes_reason() {
    match status_response_for("say \"hi\"") {
        Packet::StatusResponse { json_response } => assert_eq!(
            json_response,
            "{\"version\":{\"name\":\"\",\"protocol\":0},\"description\":\"say \\\"hi\\\"\"}"
        ),
        other => panic!("unexpected {:?}", other),
    }
}
