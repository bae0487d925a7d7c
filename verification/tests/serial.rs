use vm_devices::serial::{
    after_direct_send, after_ready_send, ConnectionState, IoPoll,
    OpenSocketSerialConfig, SendOutcome, SocketSerialBackend, SocketSerialResolver, WriteStep,
};

fn backend(current: Option<u32>, listener: Option<u32>) -> SocketSerialBackend<u32> {
    SocketSerialResolver.resolve(OpenSocketSerialConfig { current, listener })
}

#[test]
fn state_follows_the_sockets() {
    assert_eq!(backend(Some(1), None).state(), ConnectionState::Connected);
    assert_eq!(backend(Some(1), Some(2)).state(), ConnectionState::Connected);
    assert_eq!(backend(None, Some(2)).state(), ConnectionState::Listening);
    assert_eq!(backend(None, None).state(), ConnectionState::Done);
    assert!(backend(Some(1), None).is_connected());
    assert!(!backend(None, Some(2)).is_connected());
}

#[test]
fn sockets_come_back_out() {
    let config = backend(Some(1), Some(2)).into_config();
    assert_eq!((config.current, config.listener), (Some(1), Some(2)));
    let stream = OpenSocketSerialConfig::from_stream(3);
    assert_eq!((stream.current, stream.listener), (Some(3), None));
    let listener = OpenSocketSerialConfig::from_listener(4);
    assert_eq!((listener.current, listener.listener), (None, Some(4)));
}

#[test]
fn connection_is_accepted_from_the_listener() {
    let mut port = backend(None, Some(2));
    assert_eq!(port.accepting(), Some(&2));
    assert!(matches!(port.poll_connect::<()>(IoPoll::Pending), IoPoll::Pending));
    assert!(matches!(port.poll_connect(IoPoll::Failed("no")), IoPoll::Failed("no")));
    assert!(!port.is_connected());
    assert!(matches!(port.poll_connect::<()>(IoPoll::Ready(9)), IoPoll::Ready(())));
    assert_eq!(port.current(), Some(&9));
    assert_eq!(port.accepting(), None);
    // A connected port is ready, and keeps its connection.
    assert!(matches!(port.poll_connect::<()>(IoPoll::Ready(10)), IoPoll::Ready(())));
    assert_eq!(port.current(), Some(&9));
    // A port without a listener never connects.
    let mut done = backend(None, None);
    assert!(matches!(done.poll_connect::<()>(IoPoll::Ready(1)), IoPoll::Pending));
    assert!(!done.is_connected());
}

#[test]
fn hangup_and_end_of_stream_disconnect() {
    let mut port = backend(Some(1), Some(2));
    assert!(!port.poll_disconnect(false));
    assert!(port.is_connected());
    assert!(port.poll_disconnect(true));
    assert_eq!(port.state(), ConnectionState::Listening);
    assert!(port.poll_disconnect(false));

    let mut port = backend(Some(1), None);
    assert!(matches!(port.poll_read::<()>(IoPoll::Ready(3)), IoPoll::Ready(3)));
    assert!(matches!(port.poll_read::<()>(IoPoll::Pending), IoPoll::Pending));
    assert!(matches!(port.poll_read(IoPoll::Failed(7)), IoPoll::Failed(7)));
    assert!(port.is_connected());
    assert!(matches!(port.poll_read::<()>(IoPoll::Ready(0)), IoPoll::Ready(0)));
    assert!(!port.is_connected());
    assert!(matches!(port.poll_read::<()>(IoPoll::Ready(5)), IoPoll::Ready(0)));
}

#[test]
fn direct_send_makes_progress() {
    let port = backend(Some(1), None);
    assert!(matches!(port.poll_write::<()>(5), WriteStep::SendNow));
    // The socket took bytes: nothing waits for it to be reported writable.
    assert!(matches!(
        after_direct_send::<()>(5, SendOutcome::Sent(5)),
        WriteStep::Done(IoPoll::Ready(5))
    ));
    assert!(matches!(
        after_direct_send::<()>(5, SendOutcome::Sent(2)),
        WriteStep::Done(IoPoll::Ready(2))
    ));
    // It took none: only then is the report waited for.
    for full in [SendOutcome::Sent(0), SendOutcome::WouldBlock(())] {
        assert!(matches!(
            after_direct_send::<()>(5, full),
            WriteStep::SendWhenReady
        ));
    }
    assert!(matches!(
        after_direct_send(5, SendOutcome::Failed("reset")),
        WriteStep::Done(IoPoll::Failed("reset"))
    ));
}

#[test]
fn bytes_for_nobody_are_dropped() {
    let port = backend(None, Some(2));
    assert!(matches!(
        port.poll_write::<()>(5),
        WriteStep::Done(IoPoll::Ready(5))
    ));
    assert!(matches!(
        after_direct_send::<()>(5, SendOutcome::BrokenPipe),
        WriteStep::Done(IoPoll::Ready(5))
    ));
    assert!(matches!(
        after_ready_send::<()>(5, SendOutcome::BrokenPipe),
        IoPoll::Ready(5)
    ));
    assert!(matches!(
        after_ready_send::<()>(5, SendOutcome::Sent(3)),
        IoPoll::Ready(3)
    ));
    assert!(matches!(
        after_ready_send::<()>(5, SendOutcome::Pending),
        IoPoll::Pending
    ));
    assert!(matches!(
        after_ready_send(5, SendOutcome::Failed(1)),
        IoPoll::Failed(1)
    ));
}

#[test]
fn flush_and_close_do_not_miss_the_peer() {
    let port = backend(Some(1), None);
    let gone = || SendOutcome::<u32>::BrokenPipe;
    assert!(matches!(port.poll_flush(gone()), IoPoll::Ready(())));
    assert!(matches!(port.poll_close(gone()), IoPoll::Ready(())));
    assert!(matches!(port.poll_flush::<()>(SendOutcome::Sent(0)), IoPoll::Ready(())));
    assert!(matches!(port.poll_flush::<()>(SendOutcome::Pending), IoPoll::Pending));
    assert!(matches!(port.poll_close(SendOutcome::Failed(1)), IoPoll::Failed(1)));
    // Every error but that of a peer that has gone is handed on.
    assert!(matches!(port.poll_flush(SendOutcome::WouldBlock(2)), IoPoll::Failed(2)));
    assert!(matches!(port.poll_close(SendOutcome::WouldBlock(2)), IoPoll::Failed(2)));
    assert!(matches!(after_ready_send(5, SendOutcome::WouldBlock(2)), IoPoll::Failed(2)));
    assert!(port.is_connected());
    let port = backend(None, Some(2));
    assert!(matches!(port.poll_flush(SendOutcome::Failed(1)), IoPoll::Ready(())));
    assert!(matches!(port.poll_close(SendOutcome::Failed(1)), IoPoll::Ready(())));
}
