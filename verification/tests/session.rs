use oxypp::callid::decimal_text;
use oxypp::codec::parse_message;
use oxypp::frame::write_frame;
use oxypp::message::{Error, OCPPMessage};
use oxypp::session::{InboundEvent, Session, SessionState};
use oxypp::taxonomy::{OCPPAction, OCPPError};

fn open_session() -> Session {
    let mut s = Session::new();
    assert_eq!(s.transport_opened(), Ok(()));
    s
}

#[test]
fn a_session_starts_connecting_and_opens_once() {
    let mut s = Session::new();
    assert_eq!(s.state(), SessionState::Connecting);
    assert!(!s.is_open());
    assert_eq!(s.transport_opened(), Ok(()));
    assert_eq!(s.state(), SessionState::Open);
    assert!(s.is_open());
    assert_eq!(s.transport_opened(), Err(Error::SessionError));
    assert_eq!(s.state(), SessionState::Open);
}

#[test]
fn nothing_is_sent_or_received_before_the_session_opens() {
    let mut s = Session::new();
    assert_eq!(s.send_call(OCPPAction::BootNotification, "{}"), Err(Error::SessionError));
    assert_eq!(s.send_result("1", "{}"), Err(Error::SessionError));
    assert_eq!(
        s.send_error("1", OCPPError::GenericError, "no", "{}"),
        Err(Error::SessionError)
    );
    assert_eq!(s.receive(r#"[3, "0", {}]"#), Err(Error::SessionError));
}

#[test]
fn a_closed_session_stays_closed() {
    let mut s = open_session();
    let (id, _) = s.send_call(OCPPAction::BootNotification, "{}").unwrap();
    s.transport_failed();
    assert_eq!(s.state(), SessionState::Closed);
    assert!(!s.is_pending(&id));
    assert_eq!(s.transport_opened(), Err(Error::SessionError));
    assert_eq!(s.state(), SessionState::Closed);
    assert_eq!(s.send_call(OCPPAction::BootNotification, "{}"), Err(Error::SessionError));
    assert_eq!(s.receive(r#"[3, "0", {}]"#), Err(Error::SessionError));
}

#[test]
fn calls_get_fresh_ids_and_whole_frames() {
    let mut s = open_session();
    let (first, text) = s.send_call(OCPPAction::BootNotification, r#"{"a":1}"#).unwrap();
    assert_eq!(first, "0");
    assert_eq!(text, r#"[2, "0", "BootNotification", {"a":1}]"#);
    let (second, text) = s.send_call(OCPPAction::BootNotification, "{}").unwrap();
    assert_eq!(second, "1");
    assert_eq!(text, r#"[2, "1", "BootNotification", {}]"#);
    assert!(s.is_pending("0"));
    assert!(s.is_pending("1"));
    assert_eq!(
        parse_message(&text),
        Ok(OCPPMessage::Call {
            id: "1".to_owned(),
            message_type: OCPPAction::BootNotification,
            payload: "{}".to_owned()
        })
    );
}

#[test]
fn a_result_is_paired_with_its_call() {
    let mut s = open_session();
    let (id, _) = s.send_call(OCPPAction::BootNotification, "{}").unwrap();
    let event = s.receive(r#"[3, "0", {"status":"Accepted"}]"#);
    assert_eq!(
        event,
        Ok(InboundEvent::Response {
            action: OCPPAction::BootNotification,
            message: OCPPMessage::CallResult {
                id: "0".to_owned(),
                payload: r#"{"status":"Accepted"}"#.to_owned()
            }
        })
    );
    assert!(!s.is_pending(&id));
    assert_eq!(s.receive(r#"[3, "0", {"status":"Accepted"}]"#), Err(Error::OrphanResponse));
    assert!(s.is_open());
}

#[test]
fn an_error_is_paired_with_its_call() {
    let mut s = open_session();
    let _ = s.send_call(OCPPAction::BootNotification, "{}").unwrap();
    let event = s.receive(r#"[4, 0, "InternalError", "broken", {}]"#);
    assert_eq!(
        event,
        Ok(InboundEvent::Response {
            action: OCPPAction::BootNotification,
            message: OCPPMessage::CallError {
                id: "0".to_owned(),
                error: OCPPError::InternalError,
                description: "broken".to_owned(),
                details: "{}".to_owned()
            }
        })
    );
}

#[test]
fn an_inbound_call_is_handed_on() {
    let mut s = open_session();
    let _ = s.send_call(OCPPAction::BootNotification, "{}").unwrap();
    let event = s.receive(r#"[2, "0", "BootNotification", {}]"#);
    assert_eq!(
        event,
        Ok(InboundEvent::Call(OCPPMessage::Call {
            id: "0".to_owned(),
            message_type: OCPPAction::BootNotification,
            payload: "{}".to_owned()
        }))
    );
    assert!(s.is_pending("0"));
}

#[test]
fn a_bad_frame_does_not_end_the_session() {
    let mut s = open_session();
    let _ = s.send_call(OCPPAction::BootNotification, "{}").unwrap();
    assert_eq!(s.receive("nonsense"), Err(Error::MalformedFrame));
    assert_eq!(s.receive(r#"[2, "9", "Reset", {}]"#), Err(Error::UnknownAction));
    assert_eq!(s.receive(r#"[4, "0", "Oops", "x", {}]"#), Err(Error::UnknownErrorCode));
    assert_eq!(s.receive(r#"[3, "5", {}]"#), Err(Error::OrphanResponse));
    assert!(s.is_open());
    assert!(s.is_pending("0"));
    assert!(s.receive(r#"[3, "0", {}]"#).is_ok());
}

#[test]
fn responses_are_written_as_frames() {
    let s = open_session();
    assert_eq!(
        s.send_result("19223201", r#"{"status":"Accepted"}"#),
        Ok(r#"[3, "19223201", {"status":"Accepted"}]"#.to_owned())
    );
    assert_eq!(
        s.send_error("12345", OCPPError::NotImplemented, "MyError", "{}"),
        Ok(r#"[4, "12345", "NotImplemented", "MyError", {}]"#.to_owned())
    );
}

#[test]
fn an_abandoned_call_gets_no_response() {
    let mut s = open_session();
    let (id, _) = s.send_call(OCPPAction::BootNotification, "{}").unwrap();
    assert!(s.abandon(&id));
    assert!(!s.abandon(&id));
    assert_eq!(s.receive(r#"[3, "0", {}]"#), Err(Error::OrphanResponse));
    let (next, _) = s.send_call(OCPPAction::BootNotification, "{}").unwrap();
    assert_eq!(next, "1");
}

#[test]
fn deliver_takes_what_was_decoded() {
    let mut s = open_session();
    assert_eq!(s.deliver(Err(Error::MalformedFrame)), Err(Error::MalformedFrame));
    let orphan = OCPPMessage::CallResult { id: "3".to_owned(), payload: "{}".to_owned() };
    assert_eq!(s.deliver(Ok(orphan)), Err(Error::OrphanResponse));
}

#[test]
fn websocket_messages_are_received() {
    let mut s = open_session();
    let _ = s.send_call(OCPPAction::BootNotification, "{}").unwrap();
    let answer = OCPPMessage::CallResult { id: "0".to_owned(), payload: "{}".to_owned() };
    let event = s.receive_frame(&write_frame(&answer));
    assert_eq!(
        event,
        Ok(InboundEvent::Response { action: OCPPAction::BootNotification, message: answer })
    );
    let binary = tungstenite::Message::Binary(vec![0xff, 0xfe]);
    assert_eq!(s.receive_frame(&binary), Err(Error::MalformedFrame));
}

#[test]
fn numbers_are_written_in_decimal() {
    assert_eq!(decimal_text(0), "0");
    assert_eq!(decimal_text(9), "9");
    assert_eq!(decimal_text(10), "10");
    assert_eq!(decimal_text(1234567890), "1234567890");
    assert_eq!(decimal_text(u64::MAX), "18446744073709551615");
}

#[test]
fn a_session_runs_out_of_ids() {
    let mut s = Session::with_first_id(u64::MAX - 1);
    assert_eq!(s.transport_opened(), Ok(()));
    let (id, _) = s.send_call(OCPPAction::BootNotification, "{}").unwrap();
    assert_eq!(id, "18446744073709551614");
    assert_eq!(s.send_call(OCPPAction::BootNotification, "{}"), Err(Error::DuplicateCallId));
    assert_eq!(s.pending_count(), 1);
    assert!(s.is_open());
}

#[test]
fn pending_calls_are_counted() {
    let mut s = open_session();
    assert_eq!(s.pending_count(), 0);
    let _ = s.send_call(OCPPAction::BootNotification, "{}").unwrap();
    let _ = s.send_call(OCPPAction::BootNotification, "{}").unwrap();
    assert_eq!(s.pending_count(), 2);
    assert!(s.receive(r#"[3, "1", {}]"#).is_ok());
    assert_eq!(s.pending_count(), 1);
}
