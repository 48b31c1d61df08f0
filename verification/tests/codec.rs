use oxypp::codec::{check_message, check_object, check_text_body, encode, parse_message};
use oxypp::message::{Error, OCPPMessage};
use oxypp::taxonomy::{OCPPAction, OCPPError};

#[test]
fn parsing_request() {
    let result = parse_message(r#"[2, "12345", "BootNotification", {}]"#);
    assert_eq!(
        result,
        Ok(OCPPMessage::Call {
            id: "12345".to_owned(),
            message_type: OCPPAction::BootNotification,
            payload: "{}".to_owned()
        })
    );
}

#[test]
fn parsing_response() {
    let result = parse_message(
        r#"[3,
        "19223201",
        {"status":"Accepted", "currentTime":"2013-02-01T20:53:32.486Z", "heartbeatInterval":300}
       ]"#,
    );
    assert_eq!(
        result,
        Ok(OCPPMessage::CallResult {
            id: "19223201".to_owned(),
            payload: r#"{"status":"Accepted", "currentTime":"2013-02-01T20:53:32.486Z", "heartbeatInterval":300}"#.to_owned()
        })
    );
}

#[test]
fn parsing_error() {
    let result = parse_message(r#"[4, "12345", "NotImplemented", "MyError", {}]"#);
    assert_eq!(
        result,
        Ok(OCPPMessage::CallError {
            id: "12345".to_owned(),
            error: OCPPError::NotImplemented,
            description: "MyError".to_owned(),
            details: "{}".to_owned()
        })
    );
}

#[test]
fn parsing_compact_response() {
    let result = parse_message(r#"[3, "19223201", {"status":"Accepted","heartbeatInterval":300}]"#);
    assert_eq!(
        result,
        Ok(OCPPMessage::CallResult {
            id: "19223201".to_owned(),
            payload: r#"{"status":"Accepted","heartbeatInterval":300}"#.to_owned()
        })
    );
}

#[test]
fn nested_payload_is_captured_whole() {
    let result = parse_message(r#"[3, "7", {"a":{"b":1,"c":{"d":2}}}]"#);
    assert_eq!(
        result,
        Ok(OCPPMessage::CallResult {
            id: "7".to_owned(),
            payload: r#"{"a":{"b":1,"c":{"d":2}}}"#.to_owned()
        })
    );
}

#[test]
fn braces_inside_strings_do_not_count() {
    let result = parse_message(r#"[3, "7", {"a":"}","b":"\"{"}]"#);
    assert_eq!(
        result,
        Ok(OCPPMessage::CallResult {
            id: "7".to_owned(),
            payload: r#"{"a":"}","b":"\"{"}"#.to_owned()
        })
    );
}

#[test]
fn bare_call_id_becomes_a_string() {
    let result = parse_message(r#"[2,12345,"BootNotification",{}]"#);
    assert_eq!(
        result,
        Ok(OCPPMessage::Call {
            id: "12345".to_owned(),
            message_type: OCPPAction::BootNotification,
            payload: "{}".to_owned()
        })
    );
}

#[test]
fn call_id_need_not_be_a_number() {
    let result = parse_message(r#"[3, "a1-b2/99999999999999999999999", {}]"#);
    assert_eq!(
        result,
        Ok(OCPPMessage::CallResult {
            id: "a1-b2/99999999999999999999999".to_owned(),
            payload: "{}".to_owned()
        })
    );
}

#[test]
fn unknown_kind_is_malformed() {
    assert_eq!(parse_message(r#"[5, "1", {}]"#), Err(Error::MalformedFrame));
    assert_eq!(parse_message(r#"[23, "1", {}]"#), Err(Error::MalformedFrame));
}

#[test]
fn wrong_arity_is_malformed() {
    assert_eq!(parse_message(r#"[2, "1"]"#), Err(Error::MalformedFrame));
    assert_eq!(parse_message(r#"[3, "1", {}, {}]"#), Err(Error::MalformedFrame));
    assert_eq!(parse_message(r#"[3, "1", "BootNotification", {}]"#), Err(Error::MalformedFrame));
    assert_eq!(parse_message(r#"[2, "1", {}]"#), Err(Error::MalformedFrame));
    assert_eq!(parse_message(r#"[4, "1", "GenericError", {}]"#), Err(Error::MalformedFrame));
}

#[test]
fn bad_syntax_is_malformed() {
    assert_eq!(parse_message(""), Err(Error::MalformedFrame));
    assert_eq!(parse_message("["), Err(Error::MalformedFrame));
    assert_eq!(parse_message("[ "), Err(Error::MalformedFrame));
    assert_eq!(parse_message(r#"2, "1", {}"#), Err(Error::MalformedFrame));
    assert_eq!(parse_message(r#"[3, "1", {}"#), Err(Error::MalformedFrame));
    assert_eq!(parse_message(r#"[3, "1", {"a":{}]"#), Err(Error::MalformedFrame));
    assert_eq!(parse_message(r#"[3, "1", {}] "#), Err(Error::MalformedFrame));
    assert_eq!(parse_message(r#"[3, "1, {}]"#), Err(Error::MalformedFrame));
    assert_eq!(parse_message(r#"[3, , {}]"#), Err(Error::MalformedFrame));
    assert_eq!(parse_message(r#"[3, "1", []]"#), Err(Error::MalformedFrame));
}

#[test]
fn unknown_action_is_reported() {
    assert_eq!(parse_message(r#"[2, "1", "Heartbeat", {}]"#), Err(Error::UnknownAction));
    assert_eq!(parse_message(r#"[2, "1", "bootnotification", {}]"#), Err(Error::UnknownAction));
}

#[test]
fn malformed_wins_over_unknown_names() {
    assert_eq!(parse_message(r#"[2, "1", "Heartbeat", {]"#), Err(Error::MalformedFrame));
    assert_eq!(parse_message(r#"[4, "1", "Oops", "x"]"#), Err(Error::MalformedFrame));
}

#[test]
fn unknown_error_code_is_reported() {
    assert_eq!(
        parse_message(r#"[4, "1", "OutOfCoffee", "none left", {}]"#),
        Err(Error::UnknownErrorCode)
    );
}

#[test]
fn whitespace_between_elements_is_insignificant() {
    let result = parse_message("[\n2\t,\r\n \"1\" ,\"BootNotification\"\n,\n{ }\n]");
    assert_eq!(
        result,
        Ok(OCPPMessage::Call {
            id: "1".to_owned(),
            message_type: OCPPAction::BootNotification,
            payload: "{ }".to_owned()
        })
    );
}

#[test]
fn encode_writes_the_array_form() {
    let call = OCPPMessage::Call {
        id: "12345".to_owned(),
        message_type: OCPPAction::BootNotification,
        payload: "{}".to_owned(),
    };
    assert_eq!(encode(&call), r#"[2, "12345", "BootNotification", {}]"#);
    let result = OCPPMessage::CallResult {
        id: "19223201".to_owned(),
        payload: r#"{"status":"Accepted"}"#.to_owned(),
    };
    assert_eq!(encode(&result), r#"[3, "19223201", {"status":"Accepted"}]"#);
    let error = OCPPMessage::CallError {
        id: "12345".to_owned(),
        error: OCPPError::NotImplemented,
        description: "MyError".to_owned(),
        details: "{}".to_owned(),
    };
    assert_eq!(encode(&error), r#"[4, "12345", "NotImplemented", "MyError", {}]"#);
}

#[test]
fn decode_undoes_encode() {
    let texts = [
        r#"[2, "12345", "BootNotification", {}]"#,
        r#"[2,77,"BootNotification",{"a":{"b":[1,2,{"c":"}"}]}}]"#,
        r#"[3, "x\"y", {"k":"v"}]"#,
        r#"[4, "9", "TypeConstraintViolation", "said \"no\"", {"why":{}}]"#,
    ];
    for text in texts {
        let m = parse_message(text).unwrap();
        assert_eq!(parse_message(&encode(&m)), Ok(m));
    }
}

#[test]
fn escapes_are_kept_as_written() {
    let result = parse_message(r#"[4, "1", "GenericError", "a\"b\\", {}]"#);
    assert_eq!(
        result,
        Ok(OCPPMessage::CallError {
            id: "1".to_owned(),
            error: OCPPError::GenericError,
            description: r#"a\"b\\"#.to_owned(),
            details: "{}".to_owned()
        })
    );
}

#[test]
fn text_beyond_ascii_is_kept() {
    let result = parse_message("[4, \"é1\", \"GenericError\", \"défaut → arrêt\", {\"k\":\"ü}\"}]");
    assert_eq!(
        result,
        Ok(OCPPMessage::CallError {
            id: "é1".to_owned(),
            error: OCPPError::GenericError,
            description: "défaut → arrêt".to_owned(),
            details: "{\"k\":\"ü}\"}".to_owned()
        })
    );
}

#[test]
fn objects_are_told_from_other_texts() {
    assert!(check_object("{}"));
    assert!(check_object(r#"{"a":{"b":1,"c":{"d":2}}}"#));
    assert!(check_object(r#"{"a":"}"}"#));
    assert!(!check_object(""));
    assert!(!check_object("{"));
    assert!(!check_object("{}{}"));
    assert!(!check_object("{} "));
    assert!(!check_object(" {}"));
    assert!(!check_object("[]"));
    assert!(!check_object(r#"{"a":"}"#));
}

#[test]
fn texts_that_can_stand_between_quotes() {
    assert!(check_text_body(""));
    assert!(check_text_body("12345"));
    assert!(check_text_body(r#"a\"b"#));
    assert!(check_text_body("{"));
    assert!(!check_text_body(r#"a"b"#));
    assert!(!check_text_body(r#"ab\"#));
}

#[test]
fn messages_that_a_frame_can_carry() {
    let good = OCPPMessage::CallError {
        id: "1".to_owned(),
        error: OCPPError::GenericError,
        description: "fine".to_owned(),
        details: "{}".to_owned(),
    };
    assert!(check_message(&good));
    assert_eq!(parse_message(&encode(&good)), Ok(good));
    let bad = OCPPMessage::CallResult { id: "1".to_owned(), payload: "[]".to_owned() };
    assert!(!check_message(&bad));
    assert_eq!(parse_message(&encode(&bad)), Err(Error::MalformedFrame));
    let quoted = OCPPMessage::CallResult { id: "a\"b".to_owned(), payload: "{}".to_owned() };
    assert!(!check_message(&quoted));
}
