//! The decisions of the hub connection: the login handshake, and what to do
//! with each read, keep-alive and reconnection outcome. The sockets, timers and
//! tasks that carry them out live outside this library.
use vstd::prelude::*;
use crate::message::{FrameError, Message};

verus! {

/// std's I/O error, carried as an opaque value in `CasetaConnectionError`.
#[verifier::external_type_specification]
#[verifier::external_body]
pub struct ExIoError(std::io::Error);

/// Errors seen on a live connection.
#[derive(Debug)]
pub enum ConnectionManagerError {
    /// The hub closed the connection part-way through a message.
    EmptyMessageError,
    /// The connection was declared dead.
    LivenessError,
    /// The connection should be replaced.
    RecoverableError(String),
    /// Nothing can be done; the daemon should exit.
    UnrecoverableError(String),
}

/// Errors in setting up a connection.
#[derive(Debug)]
pub enum CasetaConnectionError {
    BadAddress,
    Authentication,
    Disconnected,
    EmptyMessage,
    Initialization,
    Uninitialized,
    ReadWriteIo(std::io::Error),
    ConnectTimeout,
    KeepAlive,
    Unknown(String),
}

/// Errors in keeping a connection alive.
#[derive(Debug, Clone, Copy, PartialEq, Eq, Structural)]
pub enum CasetaConnectionLivenessError {
    KeepAliveRefreshError,
}

/// Checks that the hub sent the frame the handshake waits for.
pub fn ensure_expected_message(
    expected_message: Message,
    actual_message: Result<Option<Message>, ConnectionManagerError>,
) -> (r: Result<(), ConnectionManagerError>)
    ensures
        r is Ok <==> actual_message == Ok::<Option<Message>, ConnectionManagerError>(
            Some(expected_message),
        ),
        r is Err ==> r->Err_0 is UnrecoverableError,
{
    match actual_message {
        Ok(Some(message)) => {
            if message == expected_message {
                Ok(())
            } else {
                Err(ConnectionManagerError::UnrecoverableError(String::from_str("unexpected message")))
            }
        },
        Ok(None) => Err(
            ConnectionManagerError::UnrecoverableError(String::from_str("unexpected empty message")),
        ),
        Err(_) => Err(
            ConnectionManagerError::UnrecoverableError(String::from_str("unexpected error")),
        ),
    }
}

/// Where the login handshake stands.
#[derive(Debug, Clone, Copy, PartialEq, Eq, Structural)]
pub enum LoginStage {
    AwaitingLoginPrompt,
    AwaitingPasswordPrompt,
    AwaitingLoggedIn,
    LoggedIn,
    Failed,
}

/// What the client does after a frame of the handshake.
#[derive(Debug)]
pub enum LoginAction {
    /// Write this line to the hub and read the next frame.
    Send(Vec<u8>),
    /// The client is logged in.
    Done,
    /// The handshake failed; the connection is closed.
    Fail(CasetaConnectionError),
}

/// The frame that the handshake waits for at a stage, if it waits for one.
pub open spec fn expected_frame(stage: LoginStage) -> Option<Message> {
    match stage {
        LoginStage::AwaitingLoginPrompt => Some(Message::LoginPrompt),
        LoginStage::AwaitingPasswordPrompt => Some(Message::PasswordPrompt),
        LoginStage::AwaitingLoggedIn => Some(Message::LoggedIn),
        _ => None,
    }
}

/// The login handshake: login prompt, user name, password prompt, password,
/// then the hub's prompt; anything else fails it.
pub struct LoginHandshake {
    stage: LoginStage,
}

impl LoginHandshake {
    pub closed spec fn spec_stage(&self) -> LoginStage {
        self.stage
    }

    pub fn new() -> (r: Self)
        ensures
            r.spec_stage() == LoginStage::AwaitingLoginPrompt,
    {
        LoginHandshake { stage: LoginStage::AwaitingLoginPrompt }
    }

    /// Where the handshake stands.
    pub fn stage(&self) -> (r: LoginStage)
        ensures
            r == self.spec_stage(),
    {
        self.stage
    }

    /// Takes the outcome of a read: the expected frame moves the handshake on
    /// (writing the user name, then the password, each followed by "\r\n", and
    /// ending logged in); anything else fails it.
    pub fn on_frame(
        &mut self,
        frame: Result<Option<Message>, ConnectionManagerError>,
        username: &[u8],
        password: &[u8],
    ) -> (r: LoginAction)
        ensures
            ({
                let expected = expected_frame(old(self).spec_stage());
                if expected is Some && frame == Ok::<Option<Message>, ConnectionManagerError>(
                    Some(expected->0),
                ) {
                    match old(self).spec_stage() {
                        LoginStage::AwaitingLoginPrompt => final(self).spec_stage()
                            == LoginStage::AwaitingPasswordPrompt && (r matches LoginAction::Send(
                            line,
                        ) && line@ == username@ + seq![13u8, 10]),
                        LoginStage::AwaitingPasswordPrompt => final(self).spec_stage()
                            == LoginStage::AwaitingLoggedIn && (r matches LoginAction::Send(line)
                            && line@ == password@ + seq![13u8, 10]),
                        _ => final(self).spec_stage() == LoginStage::LoggedIn && r is Done,
                    }
                } else {
                    final(self).spec_stage() == LoginStage::Failed && r matches LoginAction::Fail(
                        CasetaConnectionError::Authentication,
                    )
                }
            }),
    {
        let expected = match self.stage {
            LoginStage::AwaitingLoginPrompt => Message::LoginPrompt,
            LoginStage::AwaitingPasswordPrompt => Message::PasswordPrompt,
            LoginStage::AwaitingLoggedIn => Message::LoggedIn,
            _ => {
                self.stage = LoginStage::Failed;
                return LoginAction::Fail(CasetaConnectionError::Authentication);
            },
        };
        match ensure_expected_message(expected, frame) {
            Err(_) => {
                self.stage = LoginStage::Failed;
                LoginAction::Fail(CasetaConnectionError::Authentication)
            },
            Ok(()) => match self.stage {
                LoginStage::AwaitingLoginPrompt => {
                    self.stage = LoginStage::AwaitingPasswordPrompt;
                    LoginAction::Send(crate::message::client_line(username))
                },
                LoginStage::AwaitingPasswordPrompt => {
                    self.stage = LoginStage::AwaitingLoggedIn;
                    LoginAction::Send(crate::message::client_line(password))
                },
                _ => {
                    self.stage = LoginStage::LoggedIn;
                    LoginAction::Done
                },
            },
        }
    }
}

/// What the connection manager does next.
#[derive(Debug, Clone, Copy, PartialEq, Eq, Structural)]
pub enum ConnectionStep {
    /// Open a connection and log in.
    Connect,
    /// Wait for the next frame, writing a keep-alive line after each minute
    /// without a write.
    Read,
}

/// What becomes of one read.
#[derive(Debug)]
pub enum ReadOutcome {
    /// Hand this frame to the caller.
    Deliver(Message),
    /// Nothing for the caller; go on.
    Continue,
    /// Give up: the caller sees this error.
    Fail(ConnectionManagerError),
}

/// Keeps a connection to the hub and hands out its frames, hiding keep-alive
/// replies, malformed lines, dropped connections and reconnection.
#[derive(Debug)]
pub struct DelegatingCasetaConnectionManager {
    connected: bool,
}

impl DelegatingCasetaConnectionManager {
    pub closed spec fn spec_connected(&self) -> bool {
        self.connected
    }

    /// A manager with no connection yet.
    pub fn new() -> (r: Self)
        ensures
            !r.spec_connected(),
    {
        DelegatingCasetaConnectionManager { connected: false }
    }

    /// Whether a live, logged-in connection is held.
    pub fn is_connected(&self) -> (r: bool)
        ensures
            r == self.spec_connected(),
    {
        self.connected
    }

    /// Connect when no connection is held, read otherwise.
    pub fn next_step(&self) -> (r: ConnectionStep)
        ensures
            r == (if self.spec_connected() {
                ConnectionStep::Read
            } else {
                ConnectionStep::Connect
            }),
    {
        if self.connected {
            ConnectionStep::Read
        } else {
            ConnectionStep::Connect
        }
    }

    /// Takes the outcome of connecting and logging in. A failed login cannot be
    /// mended and is returned; any other failure is left to the next attempt.
    pub fn on_connect_result(&mut self, result: Result<(), CasetaConnectionError>) -> (r: Option<
        ConnectionManagerError,
    >)
        ensures
            final(self).spec_connected() == result is Ok,
            r is Some <==> result matches Err(CasetaConnectionError::Authentication),
            r matches Some(e) ==> e is UnrecoverableError,
    {
        match result {
            Ok(()) => {
                self.connected = true;
                None
            },
            Err(CasetaConnectionError::Authentication) => {
                self.connected = false;
                Some(
                    ConnectionManagerError::UnrecoverableError(
                        String::from_str("there was a problem authenticating with the caseta hub"),
                    ),
                )
            },
            Err(_) => {
                self.connected = false;
                None
            },
        }
    }

    /// Takes one parsed line: a button event or prompt goes to the caller, the
    /// hub's reply to a keep-alive and a malformed line are skipped.
    pub fn on_frame(&mut self, frame: Result<Message, FrameError>) -> (r: ReadOutcome)
        ensures
            final(self).spec_connected() == old(self).spec_connected(),
            match frame {
                Ok(Message::LoggedIn) => r is Continue,
                Ok(m) => r matches ReadOutcome::Deliver(d) && d == m,
                Err(_) => r is Continue,
            },
    {
        match frame {
            Ok(Message::LoggedIn) => ReadOutcome::Continue,
            Ok(m) => ReadOutcome::Deliver(m),
            Err(_) => ReadOutcome::Continue,
        }
    }

    /// Takes the hub closing the connection: the next step reconnects.
    pub fn on_closed(&mut self)
        ensures
            !final(self).spec_connected(),
    {
        self.connected = false;
    }

    /// Takes a failed read: an unrecoverable error goes to the caller, any other
    /// drops the connection so that the next step reconnects.
    pub fn on_read_error(&mut self, error: ConnectionManagerError) -> (r: ReadOutcome)
        ensures
            error is UnrecoverableError ==> (r matches ReadOutcome::Fail(e) && e == error)
                && final(self).spec_connected() == old(self).spec_connected(),
            !(error is UnrecoverableError) ==> r is Continue && !final(self).spec_connected(),
    {
        match error {
            ConnectionManagerError::UnrecoverableError(s) => ReadOutcome::Fail(
                ConnectionManagerError::UnrecoverableError(s),
            ),
            _ => {
                self.connected = false;
                ReadOutcome::Continue
            },
        }
    }

    /// Takes the outcome of a keep-alive write: a failed one declares the
    /// connection dead, so that the next step reconnects.
    pub fn on_keep_alive_result(&mut self, result: Result<(), CasetaConnectionLivenessError>)
        ensures
            final(self).spec_connected() == (old(self).spec_connected() && result is Ok),
    {
        if result.is_err() {
            self.connected = false;
        }
    }
}

} // verus!
