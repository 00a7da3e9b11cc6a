use caseta_listener::connection::{
    ensure_expected_message, CasetaConnectionError, CasetaConnectionLivenessError,
    ConnectionManagerError, ConnectionStep, DelegatingCasetaConnectionManager, LoginAction,
    LoginHandshake, LoginStage, ReadOutcome,
};
use caseta_listener::message::{FrameError, Message};
use caseta_listener::remote_config::{ButtonAction, ButtonId};

#[test]
fn login_handshake_succeeds() {
    let mut login = LoginHandshake::new();
    match login.on_frame(Ok(Some(Message::LoginPrompt)), b"lutron", b"integration") {
        LoginAction::Send(line) => assert_eq!(line, b"lutron\r\n".to_vec()),
        other => panic!("unexpected {:?}", other),
    }
    match login.on_frame(Ok(Some(Message::PasswordPrompt)), b"lutron", b"integration") {
        LoginAction::Send(line) => assert_eq!(line, b"integration\r\n".to_vec()),
        other => panic!("unexpected {:?}", other),
    }
    assert!(matches!(
        login.on_frame(Ok(Some(Message::LoggedIn)), b"lutron", b"integration"),
        LoginAction::Done
    ));
    assert_eq!(login.stage(), LoginStage::LoggedIn);
}

#[test]
fn login_handshake_fails_out_of_order() {
    let mut login = LoginHandshake::new();
    assert!(matches!(
        login.on_frame(Ok(Some(Message::PasswordPrompt)), b"u", b"p"),
        LoginAction::Fail(CasetaConnectionError::Authentication)
    ));
    assert_eq!(login.stage(), LoginStage::Failed);
    let mut login = LoginHandshake::new();
    login.on_frame(Ok(Some(Message::LoginPrompt)), b"u", b"p");
    assert!(matches!(
        login.on_frame(Ok(None), b"u", b"p"),
        LoginAction::Fail(CasetaConnectionError::Authentication)
    ));
    let mut login = LoginHandshake::new();
    assert!(matches!(
        login.on_frame(Err(ConnectionManagerError::LivenessError), b"u", b"p"),
        LoginAction::Fail(CasetaConnectionError::Authentication)
    ));
}

#[test]
fn expected_message_check() {
    assert!(ensure_expected_message(Message::LoginPrompt, Ok(Some(Message::LoginPrompt))).is_ok());
    assert!(matches!(
        ensure_expected_message(Message::LoginPrompt, Ok(Some(Message::LoggedIn))),
        Err(ConnectionManagerError::UnrecoverableError(_))
    ));
    assert!(matches!(
        ensure_expected_message(Message::LoggedIn, Ok(None)),
        Err(ConnectionManagerError::UnrecoverableError(_))
    ));
}

#[test]
fn manager_reconnects_after_keep_alive_failure() {
    let mut manager = DelegatingCasetaConnectionManager::new();
    assert_eq!(manager.next_step(), ConnectionStep::Connect);
    assert!(manager.on_connect_result(Ok(())).is_none());
    assert_eq!(manager.next_step(), ConnectionStep::Read);
    assert!(matches!(manager.on_frame(Ok(Message::LoggedIn)), ReadOutcome::Continue));
    let event = Message::ButtonEvent {
        remote_id: 7,
        button_id: ButtonId::PowerOn,
        button_action: ButtonAction::Press,
    };
    match manager.on_frame(Ok(event)) {
        ReadOutcome::Deliver(m) => assert_eq!(m, event),
        other => panic!("unexpected {:?}", other),
    }
    manager.on_keep_alive_result(Ok(()));
    assert_eq!(manager.next_step(), ConnectionStep::Read);
    manager.on_keep_alive_result(Err(CasetaConnectionLivenessError::KeepAliveRefreshError));
    assert_eq!(manager.next_step(), ConnectionStep::Connect);
    assert!(manager.on_connect_result(Err(CasetaConnectionError::ConnectTimeout)).is_none());
    assert_eq!(manager.next_step(), ConnectionStep::Connect);
    assert!(manager.on_connect_result(Ok(())).is_none());
    assert!(manager.is_connected());
}

#[test]
fn manager_skips_malformed_lines() {
    let mut manager = DelegatingCasetaConnectionManager::new();
    manager.on_connect_result(Ok(()));
    assert!(matches!(manager.on_frame(Err(FrameError::UnknownButton(99))), ReadOutcome::Continue));
    assert_eq!(manager.next_step(), ConnectionStep::Read);
}

#[test]
fn manager_handles_read_errors() {
    let mut manager = DelegatingCasetaConnectionManager::new();
    manager.on_connect_result(Ok(()));
    assert!(matches!(manager.on_read_error(ConnectionManagerError::LivenessError), ReadOutcome::Continue));
    assert_eq!(manager.next_step(), ConnectionStep::Connect);
    manager.on_connect_result(Ok(()));
    assert!(matches!(manager.on_read_error(ConnectionManagerError::EmptyMessageError), ReadOutcome::Continue));
    assert!(!manager.is_connected());
    manager.on_connect_result(Ok(()));
    manager.on_closed();
    assert!(!manager.is_connected());
    assert!(matches!(
        manager.on_read_error(ConnectionManagerError::UnrecoverableError("bad".to_string())),
        ReadOutcome::Fail(ConnectionManagerError::UnrecoverableError(_))
    ));
}

#[test]
fn failed_login_is_unrecoverable() {
    let mut manager = DelegatingCasetaConnectionManager::new();
    assert!(matches!(
        manager.on_connect_result(Err(CasetaConnectionError::Authentication)),
        Some(ConnectionManagerError::UnrecoverableError(_))
    ));
    assert!(!manager.is_connected());
}
