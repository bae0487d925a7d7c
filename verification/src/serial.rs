//! A serial port over a socket.
//!
//! A connection is accepted from a listener, or given from the start; what the guest writes while
//! there is none is dropped. Socket calls are the caller's: this module says which one is due, and
//! what its outcome means for the guest.

use vstd::prelude::*;

verus! {

/// The sockets of a serial port: a connection, and a listener for further ones.
pub struct OpenSocketSerialConfig<S> {
    pub current: Option<S>,
    pub listener: Option<S>,
}

impl<S> OpenSocketSerialConfig<S> {
    /// A port over a connection.
    pub fn from_stream(stream: S) -> (ret: Self)
        ensures
            ret == (OpenSocketSerialConfig { current: Some(stream), listener: None }),
    {
        OpenSocketSerialConfig { current: Some(stream), listener: None }
    }

    /// A port that waits for a connection.
    pub fn from_listener(listener: S) -> (ret: Self)
        ensures
            ret == (OpenSocketSerialConfig { current: None, listener: Some(listener) }),
    {
        OpenSocketSerialConfig { current: None, listener: Some(listener) }
    }
}

/// Makes serial ports of sockets.
pub struct SocketSerialResolver;

impl SocketSerialResolver {
    pub fn resolve<S>(&self, config: OpenSocketSerialConfig<S>) -> (ret: SocketSerialBackend<S>)
        ensures
            ret@ == config,
    {
        SocketSerialBackend::new(config)
    }
}

/// Whether a port is connected, waits for a connection, or will never have one again.
#[derive(Clone, Copy, Debug, PartialEq, Eq, Structural)]
pub enum ConnectionState {
    Connected,
    Listening,
    Done,
}

/// The outcome of a call that may not be ready.
pub enum IoPoll<T, E> {
    Pending,
    Ready(T),
    Failed(E),
}

/// The outcome of sending on a socket.
pub enum SendOutcome<E> {
    Pending,
    Sent(usize),
    /// The socket takes no bytes at the moment, which it tells by this error.
    WouldBlock(E),
    /// The peer has gone.
    BrokenPipe,
    Failed(E),
}

/// What comes next in a write.
pub enum WriteStep<E> {
    /// The write is over.
    Done(IoPoll<usize, E>),
    /// Send directly, without waiting for the socket to be reported writable.
    SendNow,
    /// Wait for the socket to become writable, and send then.
    SendWhenReady,
}

/// A serial port over sockets of type `S`.
pub struct SocketSerialBackend<S> {
    current: Option<S>,
    listener: Option<S>,
}

impl<S> View for SocketSerialBackend<S> {
    type V = OpenSocketSerialConfig<S>;

    closed spec fn view(&self) -> OpenSocketSerialConfig<S> {
        OpenSocketSerialConfig { current: self.current, listener: self.listener }
    }
}

impl<S> SocketSerialBackend<S> {
    pub fn new(config: OpenSocketSerialConfig<S>) -> (ret: Self)
        ensures
            ret@ == config,
    {
        SocketSerialBackend { current: config.current, listener: config.listener }
    }

    pub fn into_config(self) -> (ret: OpenSocketSerialConfig<S>)
        ensures
            ret == self@,
    {
        OpenSocketSerialConfig { current: self.current, listener: self.listener }
    }

    pub fn state(&self) -> (ret: ConnectionState)
        ensures
            ret == if self@.current is Some {
                ConnectionState::Connected
            } else if self@.listener is Some {
                ConnectionState::Listening
            } else {
                ConnectionState::Done
            },
            ret == state_of(self@),
    {
        if self.current.is_some() {
            ConnectionState::Connected
        } else if self.listener.is_some() {
            ConnectionState::Listening
        } else {
            ConnectionState::Done
        }
    }

    pub fn is_connected(&self) -> (ret: bool)
        ensures
            ret == (self@.current is Some),
    {
        self.current.is_some()
    }

    /// The connection.
    pub fn current(&self) -> (ret: Option<&S>)
        ensures
            match ret {
                Some(socket) => self@.current == Some(*socket),
                None => self@.current is None,
            },
    {
        self.current.as_ref()
    }

    /// The listener, where a connection is to be accepted from it.
    pub fn accepting(&self) -> (ret: Option<&S>)
        ensures
            match ret {
                Some(socket) => self@.current is None && self@.listener == Some(*socket),
                None => self@.current is Some || self@.listener is None,
            },
    {
        if self.current.is_some() {
            None
        } else {
            self.listener.as_ref()
        }
    }

    /// Waits for a connection. `accepted` is the outcome of accepting one from the listener, and
    /// counts only where one is to be accepted: a connected port is ready, and a port without a
    /// listener never will be.
    pub fn poll_connect<E>(&mut self, accepted: IoPoll<S, E>) -> (ret: IoPoll<(), E>)
        ensures
            ({
                let before = old(self)@;
                if before.current is Some {
                    ret == IoPoll::<(), E>::Ready(()) && final(self)@ == before
                } else if before.listener is None {
                    ret == IoPoll::<(), E>::Pending && final(self)@ == before
                } else {
                    match accepted {
                        IoPoll::Pending => ret == IoPoll::<(), E>::Pending && final(self)@
                            == before,
                        IoPoll::Failed(err) => ret == IoPoll::<(), E>::Failed(err) && final(self)@
                            == before,
                        IoPoll::Ready(socket) => ret == IoPoll::<(), E>::Ready(()) && final(self)@
                            == (OpenSocketSerialConfig { current: Some(socket), ..before }),
                    }
                }
            }),
            ret == connect_outcome(old(self)@, accepted),
            final(self)@ == after_connect(old(self)@, accepted),
    {
        if self.current.is_some() {
            return IoPoll::Ready(());
        }
        if self.listener.is_none() {
            // This will never complete.
            return IoPoll::Pending;
        }
        match accepted {
            IoPoll::Pending => IoPoll::Pending,
            IoPoll::Failed(err) => IoPoll::Failed(err),
            IoPoll::Ready(socket) => {
                self.current = Some(socket);
                IoPoll::Ready(())
            },
        }
    }

    /// Waits for the peer to hang up. Tells whether there is no connection any more.
    pub fn poll_disconnect(&mut self, hung_up: bool) -> (ret: bool)
        ensures
            ret == (old(self)@.current is None || hung_up),
            final(self)@ == if hung_up {
                OpenSocketSerialConfig { current: None, ..old(self)@ }
            } else {
                old(self)@
            },
            hung_up ==> final(self)@ == without_connection(old(self)@),
    {
        if self.current.is_some() {
            if !hung_up {
                return false;
            }
            self.current = None;
        }
        true
    }

    /// Concludes a read. `read` is the outcome of reading from the connection, and counts only
    /// where there is one; without one, nothing is read. A read of nothing is the end of the
    /// connection.
    pub fn poll_read<E>(&mut self, read: IoPoll<usize, E>) -> (ret: IoPoll<usize, E>)
        ensures
            ret == if old(self)@.current is Some {
                read
            } else {
                IoPoll::<usize, E>::Ready(0)
            },
            final(self)@ == if read == IoPoll::<usize, E>::Ready(0) {
                OpenSocketSerialConfig { current: None, ..old(self)@ }
            } else {
                old(self)@
            },
            ret == read_outcome(old(self)@, read),
            final(self)@ == after_read(old(self)@, read),
    {
        if self.current.is_none() {
            return IoPoll::Ready(0);
        }
        if let IoPoll::Ready(n) = &read {
            if *n == 0 {
                self.current = None;
            }
        }
        read
    }

    /// Begins a write of `len` bytes. Without a connection they are dropped.
    pub fn poll_write<E>(&self, len: usize) -> (ret: WriteStep<E>)
        ensures
            ret == if self@.current is Some {
                WriteStep::<E>::SendNow
            } else {
                WriteStep::<E>::Done(IoPoll::Ready(len))
            },
            ret == write_step::<S, E>(self@, len),
    {
        if self.current.is_some() {
            WriteStep::SendNow
        } else {
            WriteStep::Done(IoPoll::Ready(len))
        }
    }

    /// Concludes flushing. `flushed` is the outcome of flushing the connection, and counts only
    /// where there is one: there is nothing to flush without a peer, or towards one that has gone.
    pub fn poll_flush<E>(&self, flushed: SendOutcome<E>) -> (ret: IoPoll<(), E>)
        ensures
            ret == if self@.current is Some {
                after_shutdown(flushed)
            } else {
                IoPoll::<(), E>::Ready(())
            },
    {
        if self.current.is_none() {
            return IoPoll::Ready(());
        }
        match flushed {
            SendOutcome::Sent(_) | SendOutcome::BrokenPipe => IoPoll::Ready(()),
            SendOutcome::Pending => IoPoll::Pending,
            SendOutcome::WouldBlock(err) | SendOutcome::Failed(err) => IoPoll::Failed(err),
        }
    }

    /// Concludes closing. `closed` is the outcome of closing the connection, and counts only where
    /// there is one. The port stays as it is: its connection goes when a read or a hangup ends it.
    pub fn poll_close<E>(&self, closed: SendOutcome<E>) -> (ret: IoPoll<(), E>)
        ensures
            ret == if self@.current is Some {
                after_shutdown(closed)
            } else {
                IoPoll::<(), E>::Ready(())
            },
    {
        self.poll_flush(closed)
    }
}

/// What flushing or closing a connection comes to: a peer that has gone is no failure, any other
/// error is handed on.
pub open spec fn after_shutdown<E>(outcome: SendOutcome<E>) -> IoPoll<(), E> {
    match outcome {
        SendOutcome::Sent(_) | SendOutcome::BrokenPipe => IoPoll::Ready(()),
        SendOutcome::Pending => IoPoll::Pending,
        SendOutcome::WouldBlock(err) | SendOutcome::Failed(err) => IoPoll::Failed(err),
    }
}

/// Goes on after a direct send of `len` bytes.
///
/// Waiting for the socket to be reported writable can stall indefinitely where that report is
/// missed, as by a guest that busy-polls the port from its own processor and never yields. So a
/// direct send is tried first; it makes progress whenever the socket can take bytes, and only
/// where it cannot is the report waited for.
pub fn after_direct_send<E>(len: usize, sent: SendOutcome<E>) -> (ret: WriteStep<E>)
    ensures
        ret == match sent {
            SendOutcome::Sent(n) if n > 0 => WriteStep::<E>::Done(IoPoll::Ready(n)),
            SendOutcome::Sent(_) | SendOutcome::WouldBlock(_) | SendOutcome::Pending =>
                WriteStep::<E>::SendWhenReady,
            SendOutcome::BrokenPipe => WriteStep::<E>::Done(IoPoll::Ready(len)),
            SendOutcome::Failed(err) => WriteStep::<E>::Done(IoPoll::Failed(err)),
        },
        ret == direct_send_step(len, sent),
{
    match sent {
        SendOutcome::Sent(n) => if n > 0 {
            WriteStep::Done(IoPoll::Ready(n))
        } else {
            WriteStep::SendWhenReady
        },
        SendOutcome::WouldBlock(_) | SendOutcome::Pending => WriteStep::SendWhenReady,
        SendOutcome::BrokenPipe => WriteStep::Done(IoPoll::Ready(len)),
        SendOutcome::Failed(err) => WriteStep::Done(IoPoll::Failed(err)),
    }
}

/// Concludes a write of `len` bytes that waited for the socket: bytes for a peer that has gone are
/// dropped, any other error is handed on.
pub fn after_ready_send<E>(len: usize, sent: SendOutcome<E>) -> (ret: IoPoll<usize, E>)
    ensures
        ret == match sent {
            SendOutcome::Sent(n) => IoPoll::<usize, E>::Ready(n),
            SendOutcome::Pending => IoPoll::<usize, E>::Pending,
            SendOutcome::BrokenPipe => IoPoll::<usize, E>::Ready(len),
            SendOutcome::WouldBlock(err) | SendOutcome::Failed(err) => IoPoll::<usize, E>::Failed(
                err,
            ),
        },
        ret == ready_send_outcome(len, sent),
{
    match sent {
        SendOutcome::Sent(n) => IoPoll::Ready(n),
        SendOutcome::Pending => IoPoll::Pending,
        SendOutcome::BrokenPipe => IoPoll::Ready(len),
        SendOutcome::WouldBlock(err) | SendOutcome::Failed(err) => IoPoll::Failed(err),
    }
}

/// Whether a port is connected, waits for a connection, or will never have one again.
pub open spec fn state_of<S>(port: OpenSocketSerialConfig<S>) -> ConnectionState {
    if port.current is Some {
        ConnectionState::Connected
    } else if port.listener is Some {
        ConnectionState::Listening
    } else {
        ConnectionState::Done
    }
}

/// A port is connected exactly where it has a connection; else it listens exactly where it has a
/// listener, and is done without either.
pub proof fn states_go_by_the_sockets<S>(port: OpenSocketSerialConfig<S>)
    ensures
        state_of(port) == ConnectionState::Connected <==> port.current is Some,
        state_of(port) == ConnectionState::Done <==> port.current is None && port.listener is None,
        state_of(port) == ConnectionState::Listening <==> port.current is None && port.listener is Some,
{
}

/// What waiting for a connection comes to. `accepted` counts only where one is to be accepted.
pub open spec fn connect_outcome<S, E>(
    port: OpenSocketSerialConfig<S>,
    accepted: IoPoll<S, E>,
) -> IoPoll<(), E> {
    if port.current is Some {
        IoPoll::Ready(())
    } else if port.listener is None {
        IoPoll::Pending
    } else {
        match accepted {
            IoPoll::Pending => IoPoll::Pending,
            IoPoll::Failed(err) => IoPoll::Failed(err),
            IoPoll::Ready(_) => IoPoll::Ready(()),
        }
    }
}

/// The sockets of a port that waited for a connection.
pub open spec fn after_connect<S, E>(
    port: OpenSocketSerialConfig<S>,
    accepted: IoPoll<S, E>,
) -> OpenSocketSerialConfig<S> {
    match accepted {
        IoPoll::Ready(socket) if port.current is None && port.listener is Some => {
            OpenSocketSerialConfig { current: Some(socket), ..port }
        },
        _ => port,
    }
}

/// The sockets of a port whose connection has gone.
pub open spec fn without_connection<S>(port: OpenSocketSerialConfig<S>) -> OpenSocketSerialConfig<
    S,
> {
    OpenSocketSerialConfig { current: None, ..port }
}

/// What a read comes to. `read` counts only where there is a connection.
pub open spec fn read_outcome<S, E>(
    port: OpenSocketSerialConfig<S>,
    read: IoPoll<usize, E>,
) -> IoPoll<usize, E> {
    if port.current is Some {
        read
    } else {
        IoPoll::Ready(0)
    }
}

/// The sockets of a port that was read from: a read of nothing ends the connection.
pub open spec fn after_read<S, E>(
    port: OpenSocketSerialConfig<S>,
    read: IoPoll<usize, E>,
) -> OpenSocketSerialConfig<S> {
    if read == IoPoll::<usize, E>::Ready(0) {
        without_connection(port)
    } else {
        port
    }
}

/// How a write of `len` bytes begins.
pub open spec fn write_step<S, E>(port: OpenSocketSerialConfig<S>, len: usize) -> WriteStep<E> {
    if port.current is Some {
        WriteStep::SendNow
    } else {
        WriteStep::Done(IoPoll::Ready(len))
    }
}

/// How a write of `len` bytes goes on after a direct send.
pub open spec fn direct_send_step<E>(len: usize, sent: SendOutcome<E>) -> WriteStep<E> {
    match sent {
        SendOutcome::Sent(n) if n > 0 => WriteStep::Done(IoPoll::Ready(n)),
        SendOutcome::Sent(_) | SendOutcome::WouldBlock(_) | SendOutcome::Pending =>
            WriteStep::SendWhenReady,
        SendOutcome::BrokenPipe => WriteStep::Done(IoPoll::Ready(len)),
        SendOutcome::Failed(err) => WriteStep::Done(IoPoll::Failed(err)),
    }
}

/// How a write of `len` bytes that waited for the socket ends.
pub open spec fn ready_send_outcome<E>(len: usize, sent: SendOutcome<E>) -> IoPoll<usize, E> {
    match sent {
        SendOutcome::Sent(n) => IoPoll::Ready(n),
        SendOutcome::Pending => IoPoll::Pending,
        SendOutcome::BrokenPipe => IoPoll::Ready(len),
        SendOutcome::WouldBlock(err) | SendOutcome::Failed(err) => IoPoll::Failed(err),
    }
}

/// A write makes progress whenever the socket takes bytes: a direct send that took some is the end
/// of it, with their number, and nothing is waited for. It waits exactly where the socket takes
/// none for now. Bytes for a peer that has gone, or for none, count as written, and any other
/// error is handed on.
pub proof fn writes_make_progress<S, E>(
    port: OpenSocketSerialConfig<S>,
    len: usize,
    n: usize,
    err: E,
)
    ensures
        port.current is Some ==> write_step::<S, E>(port, len) is SendNow,
        port.current is None ==> write_step::<S, E>(port, len) == WriteStep::<E>::Done(
            IoPoll::Ready(len),
        ),
        n > 0 ==> direct_send_step(len, SendOutcome::<E>::Sent(n)) == WriteStep::<E>::Done(
            IoPoll::Ready(n),
        ),
        direct_send_step(len, SendOutcome::<E>::Sent(0)) is SendWhenReady,
        direct_send_step(len, SendOutcome::WouldBlock(err)) is SendWhenReady,
        direct_send_step(len, SendOutcome::<E>::BrokenPipe) == WriteStep::<E>::Done(
            IoPoll::Ready(len),
        ),
        direct_send_step(len, SendOutcome::Failed(err)) == WriteStep::<E>::Done(
            IoPoll::Failed(err),
        ),
        ready_send_outcome(len, SendOutcome::<E>::Sent(n)) == IoPoll::<usize, E>::Ready(n),
        ready_send_outcome(len, SendOutcome::<E>::BrokenPipe) == IoPoll::<usize, E>::Ready(len),
        ready_send_outcome(len, SendOutcome::<E>::Pending) is Pending,
        ready_send_outcome(len, SendOutcome::WouldBlock(err)) == IoPoll::<usize, E>::Failed(err),
        ready_send_outcome(len, SendOutcome::Failed(err)) == IoPoll::<usize, E>::Failed(err),
{
}

/// Flushing and closing succeed where nobody is left to flush or close towards, and hand any other
/// error on.
pub proof fn flushing_hands_errors_on<E>(n: usize, err: E)
    ensures
        after_shutdown(SendOutcome::<E>::Sent(n)) == IoPoll::<(), E>::Ready(()),
        after_shutdown(SendOutcome::<E>::BrokenPipe) == IoPoll::<(), E>::Ready(()),
        after_shutdown(SendOutcome::<E>::Pending) is Pending,
        after_shutdown(SendOutcome::WouldBlock(err)) == IoPoll::<(), E>::Failed(err),
        after_shutdown(SendOutcome::Failed(err)) == IoPoll::<(), E>::Failed(err),
{
}

/// A connection comes from the listener, where there is none yet, and stays until the peer ends or
/// drops it; the listener always stays. A connected port is ready at once, and one without a
/// listener never.
pub proof fn connections_come_and_go<S, E>(
    port: OpenSocketSerialConfig<S>,
    accepted: IoPoll<S, E>,
    read: IoPoll<usize, E>,
)
    ensures
        port.current is Some ==> after_connect(port, accepted) == port && connect_outcome(
            port,
            accepted,
        ) == IoPoll::<(), E>::Ready(()),
        port.current is None && port.listener is None ==> after_connect(port, accepted) == port
            && connect_outcome(port, accepted) is Pending,
        port.current is None && port.listener is Some ==> match accepted {
            IoPoll::Ready(socket) => after_connect(port, accepted).current == Some(socket)
                && connect_outcome(port, accepted) == IoPoll::<(), E>::Ready(()),
            IoPoll::Pending => after_connect(port, accepted) == port && connect_outcome(
                port,
                accepted,
            ) is Pending,
            IoPoll::Failed(err) => after_connect(port, accepted) == port && connect_outcome(
                port,
                accepted,
            ) == IoPoll::<(), E>::Failed(err),
        },
        after_connect(port, accepted).listener == port.listener,
        port.current is Some ==> read_outcome(port, read) == read,
        port.current is None ==> read_outcome(port, read) == IoPoll::<usize, E>::Ready(0),
        (read matches IoPoll::Ready(n) && n == 0) ==> after_read(port, read).current is None,
        !(read matches IoPoll::Ready(n) && n == 0) ==> after_read(port, read) == port,
        after_read(port, read).listener == port.listener,
        without_connection(port).current is None,
        without_connection(port).listener == port.listener,
{
}

} // verus!
