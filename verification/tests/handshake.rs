use idlescreen::handshake::{
    ipc_handshake_step, HandshakeAction, HandshakeEvent, HandshakeState, RunnerReply,
};

fn abort_text(a: HandshakeAction) -> String {
    match a {
        HandshakeAction::Abort(m) => m,
        other => panic!("expected an abort, got {other:?}"),
    }
}

#[test]
fn handshake_runs_ready_init_ack() {
    let (s, a) = ipc_handshake_step(
        HandshakeState::AwaitConnection,
        &HandshakeEvent::NotYetConnected { elapsed_nanos: 10_000_000 },
        120,
        40,
    );
    assert_eq!(s, HandshakeState::AwaitConnection);
    assert!(matches!(a, HandshakeAction::RetryAccept));
    let (s, a) = ipc_handshake_step(s, &HandshakeEvent::Connected, 120, 40);
    assert_eq!(s, HandshakeState::MakingBlocking);
    assert!(matches!(a, HandshakeAction::MakeBlocking));
    let (s, a) = ipc_handshake_step(s, &HandshakeEvent::BlockingSet, 120, 40);
    assert_eq!(s, HandshakeState::AwaitReady);
    assert!(matches!(a, HandshakeAction::ReadReply));
    let (s, a) = ipc_handshake_step(s, &HandshakeEvent::Reply(RunnerReply::Ready), 120, 40);
    assert_eq!(s, HandshakeState::SendingInit);
    assert!(matches!(a, HandshakeAction::SendInit { cols: 120, rows: 40 }));
    let (s, a) = ipc_handshake_step(s, &HandshakeEvent::InitSent, 120, 40);
    assert_eq!(s, HandshakeState::AwaitAck);
    assert!(matches!(a, HandshakeAction::ReadReply));
    let (s, a) = ipc_handshake_step(s, &HandshakeEvent::Reply(RunnerReply::Ack), 120, 40);
    assert_eq!(s, HandshakeState::Connected);
    assert!(matches!(a, HandshakeAction::Finish));
    let (s, a) = ipc_handshake_step(s, &HandshakeEvent::InitSent, 120, 40);
    assert_eq!(s, HandshakeState::Connected);
    assert!(matches!(a, HandshakeAction::Nothing));
}

#[test]
fn handshake_times_out_after_five_seconds() {
    let (s, a) = ipc_handshake_step(
        HandshakeState::AwaitConnection,
        &HandshakeEvent::NotYetConnected { elapsed_nanos: 5_000_000_000 },
        1,
        1,
    );
    assert_eq!(s, HandshakeState::AwaitConnection);
    assert!(matches!(a, HandshakeAction::RetryAccept));
    let (s, a) = ipc_handshake_step(
        HandshakeState::AwaitConnection,
        &HandshakeEvent::NotYetConnected { elapsed_nanos: 5_000_000_001 },
        1,
        1,
    );
    assert_eq!(s, HandshakeState::Failed);
    assert_eq!(abort_text(a), "timeout waiting for runner process connection");
}

#[test]
fn handshake_failures_carry_their_messages() {
    let step = |s: HandshakeState, e: HandshakeEvent| {
        let (next, a) = ipc_handshake_step(s, &e, 1, 1);
        assert_eq!(next, HandshakeState::Failed);
        abort_text(a)
    };
    assert_eq!(
        step(HandshakeState::AwaitConnection, HandshakeEvent::AcceptFailed("EBADF".to_string())),
        "UDS accept error: EBADF"
    );
    assert_eq!(
        step(HandshakeState::MakingBlocking, HandshakeEvent::BlockingFailed("EIO".to_string())),
        "failed to set blocking on runner stream: EIO"
    );
    assert_eq!(
        step(HandshakeState::AwaitReady, HandshakeEvent::Reply(RunnerReply::Ack)),
        "unexpected connection message: Ack"
    );
    assert_eq!(
        step(HandshakeState::AwaitReady, HandshakeEvent::ReadFailed("eof".to_string())),
        "failed to read connection message: eof"
    );
    assert_eq!(
        step(HandshakeState::SendingInit, HandshakeEvent::SendFailed("broken pipe".to_string())),
        "failed to send Init: broken pipe"
    );
    assert_eq!(
        step(
            HandshakeState::AwaitAck,
            HandshakeEvent::Reply(RunnerReply::Other("FrameReady { scanlines: true }".to_string()))
        ),
        "unexpected response to Init: FrameReady { scanlines: true }"
    );
    assert_eq!(
        step(HandshakeState::AwaitAck, HandshakeEvent::Reply(RunnerReply::Ready)),
        "unexpected response to Init: Ready"
    );
    assert_eq!(
        step(HandshakeState::AwaitAck, HandshakeEvent::ReadFailed("eof".to_string())),
        "failed to read Init Ack: eof"
    );
}
