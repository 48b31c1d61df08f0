use oxypp::frame::{read_frame, write_frame};
use oxypp::message::{Error, OCPPMessage};
use oxypp::taxonomy::{MessageTypeId, OCPPAction, OCPPError};

#[test]
fn a_message_becomes_a_text_message() {
    let m = OCPPMessage::Call {
        id: "12345".to_owned(),
        message_type: OCPPAction::BootNotification,
        payload: "{}".to_owned(),
    };
    let frame = write_frame(&m);
    assert_eq!(
        frame,
        tungstenite::Message::Text(r#"[2, "12345", "BootNotification", {}]"#.to_owned())
    );
    assert_eq!(tungstenite::Message::from(m), frame);
}

#[test]
fn a_text_message_is_decoded() {
    let frame = tungstenite::Message::Text(r#"[4, "12345", "NotImplemented", "MyError", {}]"#.to_owned());
    assert_eq!(
        read_frame(&frame),
        Ok(OCPPMessage::CallError {
            id: "12345".to_owned(),
            error: OCPPError::NotImplemented,
            description: "MyError".to_owned(),
            details: "{}".to_owned()
        })
    );
}

#[test]
fn binary_text_is_decoded_too() {
    let frame = tungstenite::Message::Binary(br#"[3, "1", {}]"#.to_vec());
    assert_eq!(
        read_frame(&frame),
        Ok(OCPPMessage::CallResult { id: "1".to_owned(), payload: "{}".to_owned() })
    );
}

#[test]
fn a_message_without_a_frame_is_malformed() {
    assert_eq!(read_frame(&tungstenite::Message::Binary(vec![0xc3, 0x28])), Err(Error::MalformedFrame));
    assert_eq!(read_frame(&tungstenite::Message::Close(None)), Err(Error::MalformedFrame));
    assert_eq!(read_frame(&tungstenite::Message::Text(String::new())), Err(Error::MalformedFrame));
}

#[test]
fn reading_undoes_writing() {
    let m = OCPPMessage::CallResult { id: "77".to_owned(), payload: r#"{"a":{"b":{}}}"#.to_owned() };
    assert_eq!(read_frame(&write_frame(&m)), Ok(m));
}

#[test]
fn kinds_have_their_numbers() {
    assert_eq!(MessageTypeId::Call.number(), 2);
    assert_eq!(MessageTypeId::CallResult.number(), 3);
    assert_eq!(MessageTypeId::CallError.number(), 4);
    assert_eq!(MessageTypeId::from_number(2), Some(MessageTypeId::Call));
    assert_eq!(MessageTypeId::from_number(3), Some(MessageTypeId::CallResult));
    assert_eq!(MessageTypeId::from_number(4), Some(MessageTypeId::CallError));
    assert_eq!(MessageTypeId::from_number(5), None);
    assert_eq!(MessageTypeId::from_number(0), None);
    let m = OCPPMessage::CallResult { id: "1".to_owned(), payload: "{}".to_owned() };
    assert_eq!(m.type_id(), MessageTypeId::CallResult);
    assert_eq!(m.id(), "1");
}
