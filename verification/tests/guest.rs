use notification_emitter::codec::encode_message;
use notification_emitter::guest::{
    apply_hint, error_class, failure_message, parse_hints, report, CallResult, ErrorClass,
    GuestAction, HintError, HintValue, NotifyFault, ParsedHints, Server, Unsolicited,
};
use std::collections::HashSet;
use notification_emitter::message::{
    ImageParameters, Message, Notification, ReplyMessage, Urgency,
};
use notification_emitter::trusted_str::TrustedStr;
use notification_emitter::validate::ActionNameFault;

fn hint(name: &str, value: HintValue) -> (String, HintValue) {
    (name.to_owned(), value)
}

fn nothing() -> ParsedHints {
    ParsedHints {
        suppress_sound: false,
        transient: false,
        resident: false,
        urgency: None,
        category: None,
        image: None,
    }
}

fn pixel() -> ImageParameters {
    ImageParameters {
        untrusted_width: 1,
        untrusted_height: 1,
        untrusted_rowstride: 3,
        untrusted_has_alpha: false,
        untrusted_bits_per_sample: 8,
        untrusted_channels: 3,
        untrusted_data: vec![1, 2, 3],
    }
}

fn call(server: &mut Server) -> u64 {
    server.notify(0, "s".to_owned(), "b".to_owned(), vec![], vec![], -1).unwrap().id
}

#[test]
fn no_hints_say_nothing() {
    assert_eq!(parse_hints(vec![]), Ok(nothing()));
}

#[test]
fn the_recognized_hints() {
    let parsed = parse_hints(vec![
        hint("urgency", HintValue::Byte(2)),
        hint("category", HintValue::Text("im".to_owned())),
        hint("image-data", HintValue::Image(pixel())),
        hint("suppress-sound", HintValue::Other),
        hint("transient", HintValue::Byte(0)),
        hint("resident", HintValue::Text("no".to_owned())),
    ])
    .unwrap();
    assert_eq!(
        parsed,
        ParsedHints {
            suppress_sound: true,
            transient: true,
            resident: true,
            urgency: Some(Urgency::Critical),
            category: Some("im".to_owned()),
            image: Some(pixel()),
        }
    );
}

#[test]
fn an_urgency_out_of_range_is_passed_over() {
    assert_eq!(parse_hints(vec![hint("urgency", HintValue::Byte(3))]), Ok(nothing()));
    assert_eq!(parse_hints(vec![hint("urgency", HintValue::Other)]), Ok(nothing()));
    assert_eq!(
        parse_hints(vec![hint("urgency", HintValue::Byte(0)), hint("urgency", HintValue::Byte(9))]),
        Ok(ParsedHints { urgency: Some(Urgency::Low), ..nothing() })
    );
    assert_eq!(
        parse_hints(vec![hint("urgency", HintValue::Byte(1))]),
        Ok(ParsedHints { urgency: Some(Urgency::Normal), ..nothing() })
    );
}

#[test]
fn unknown_hints_are_passed_over() {
    assert_eq!(
        parse_hints(vec![
            hint("image_data", HintValue::Image(pixel())),
            hint("image-path", HintValue::Text("/x".to_owned())),
            hint("sound-file", HintValue::Text("/y".to_owned())),
            hint("x-thing", HintValue::Other),
            hint("Urgency", HintValue::Byte(1)),
        ]),
        Ok(nothing())
    );
}

#[test]
fn a_hint_of_the_wrong_type_is_refused() {
    assert_eq!(parse_hints(vec![hint("category", HintValue::Byte(1))]), Err(HintError::Category));
    assert_eq!(
        parse_hints(vec![hint("image-data", HintValue::Text("x".to_owned()))]),
        Err(HintError::ImageData)
    );
    assert_eq!(
        parse_hints(vec![
            hint("resident", HintValue::Other),
            hint("image-data", HintValue::Other),
            hint("category", HintValue::Other),
        ]),
        Err(HintError::ImageData)
    );
    assert_eq!(
        apply_hint(nothing(), "category", HintValue::Other),
        Err(HintError::Category)
    );
    assert_eq!(
        apply_hint(nothing(), "transient", HintValue::Other),
        Ok(ParsedHints { transient: true, ..nothing() })
    );
}

#[test]
fn a_call_becomes_a_request() {
    let mut server = Server::new();
    let m = server
        .notify(
            4,
            "sum".to_owned(),
            "bod".to_owned(),
            vec!["default".to_owned(), "Open it".to_owned()],
            vec![
                hint("resident", HintValue::Other),
                hint("category", HintValue::Text("im".to_owned())),
            ],
            1500,
        )
        .unwrap();
    assert_eq!(
        m,
        Message {
            id: 0,
            notification: Notification::V1 {
                suppress_sound: false,
                transient: false,
                resident: true,
                urgency: None,
                replaces_id: 4,
                summary: "sum".to_owned(),
                body: "bod".to_owned(),
                actions: vec!["default".to_owned(), "Open it".to_owned()],
                category: Some("im".to_owned()),
                expire_timeout: 1500,
                image: None,
            }
        }
    );
    assert_eq!(call(&mut server), 1);
    assert_eq!(call(&mut server), 2);
}

#[test]
fn a_call_with_a_bad_hint_takes_no_number() {
    let mut server = Server::new();
    assert_eq!(
        server.notify(
            0,
            "s".to_owned(),
            "b".to_owned(),
            vec![],
            vec![hint("category", HintValue::Other)],
            -1
        ),
        Err(NotifyFault::Hint(HintError::Category))
    );
    assert_eq!(call(&mut server), 0);
}

#[test]
fn a_call_with_bad_actions_is_refused_and_not_parked() {
    let mut server = Server::new();
    assert_eq!(
        server.notify(0, "s".to_owned(), "b".to_owned(), vec!["a".to_owned()], vec![], -1),
        Err(NotifyFault::OddActions)
    );
    assert_eq!(
        server.notify(
            0,
            "s".to_owned(),
            "b".to_owned(),
            vec![
                "ok".to_owned(),
                "any label !".to_owned(),
                "not ok".to_owned(),
                "label".to_owned(),
                "".to_owned(),
                "label".to_owned()
            ],
            vec![],
            -1
        ),
        Err(NotifyFault::ActionName { index: 2, fault: ActionNameFault::BadByte { position: 2 } })
    );
    assert_eq!(
        server.notify(
            0,
            "s".to_owned(),
            "b".to_owned(),
            vec!["".to_owned(), "label".to_owned()],
            vec![],
            -1
        ),
        Err(NotifyFault::ActionName { index: 0, fault: ActionNameFault::Empty })
    );
    assert_eq!(call(&mut server), 3);
    for refused in 0..3 {
        assert_eq!(
            server.dispatch(ReplyMessage::UnknownError { sequence: refused }),
            Err(Unsolicited { sequence: refused })
        );
    }
    assert!(server.dispatch(ReplyMessage::UnknownError { sequence: 3 }).is_ok());
}

#[test]
fn an_answer_releases_its_number_once() {
    let mut server = Server::new();
    assert_eq!((call(&mut server), call(&mut server), call(&mut server)), (0, 1, 2));
    assert_eq!(
        server.dispatch(ReplyMessage::Id { id: 7, sequence: 1 }),
        Ok(GuestAction::Complete { sequence: 1, result: CallResult::Id(7) })
    );
    assert_eq!(
        server.dispatch(ReplyMessage::Id { id: 7, sequence: 1 }),
        Err(Unsolicited { sequence: 1 })
    );
    assert_eq!(
        server.dispatch(ReplyMessage::DBusError {
            name: "a.B".to_owned(),
            message: None,
            sequence: 0
        }),
        Ok(GuestAction::Complete {
            sequence: 0,
            result: CallResult::Error { name: "a.B".to_owned(), message: None }
        })
    );
    assert_eq!(
        server.dispatch(ReplyMessage::UnknownError { sequence: 0 }),
        Err(Unsolicited { sequence: 0 })
    );
    assert_eq!(
        server.dispatch(ReplyMessage::UnknownError { sequence: 2 }),
        Ok(GuestAction::Complete { sequence: 2, result: CallResult::Unknown })
    );
    assert_eq!(
        server.dispatch(ReplyMessage::ServerRestart),
        Ok(GuestAction::Restart { failed: HashSet::new() })
    );
}

#[test]
fn an_answer_to_a_number_never_given_is_refused() {
    let mut server = Server::new();
    assert_eq!(
        server.dispatch(ReplyMessage::Id { id: 1, sequence: 0 }),
        Err(Unsolicited { sequence: 0 })
    );
    call(&mut server);
    assert_eq!(
        server.dispatch(ReplyMessage::Id { id: 1, sequence: 1 }),
        Err(Unsolicited { sequence: 1 })
    );
}

#[test]
fn events_become_signals() {
    let mut server = Server::new();
    call(&mut server);
    assert_eq!(
        server.dispatch(ReplyMessage::Dismissed { id: 3, reason: 2 }),
        Ok(GuestAction::EmitClosed { id: 3, reason: 2 })
    );
    assert_eq!(
        server.dispatch(ReplyMessage::ActionInvoked { id: 3, action: "default".to_owned() }),
        Ok(GuestAction::EmitActionInvoked { id: 3, action: "default".to_owned() })
    );
    // Neither released the call that waits.
    assert!(server.dispatch(ReplyMessage::UnknownError { sequence: 0 }).is_ok());
}

#[test]
fn a_restart_fails_every_waiting_call() {
    let mut server = Server::new();
    for _ in 0..4 {
        call(&mut server);
    }
    server.dispatch(ReplyMessage::UnknownError { sequence: 1 }).unwrap();
    let action = server.dispatch(ReplyMessage::ServerRestart).unwrap();
    let GuestAction::Restart { failed } = action else { panic!("no restart") };
    assert_eq!(failed, HashSet::from([0, 2, 3]));
    assert_eq!(call(&mut server), 4);
}

#[test]
fn what_the_local_server_says_of_itself() {
    assert_eq!(Server::get_capabilities(), vec!["persistence".to_owned(), "actions".to_owned()]);
    assert_eq!(
        Server::get_server_information(),
        (
            "Qubes OS Notification Proxy".to_owned(),
            "Qubes OS".to_owned(),
            "0.0.1".to_owned(),
            "1.2".to_owned()
        )
    );
}

#[test]
fn the_words_for_a_failed_call() {
    assert_eq!(failure_message(Some("no such thing".to_owned())), "no such thing");
    assert_eq!(failure_message(None), "failed");
}

#[test]
fn a_trusted_string_keeps_its_text() {
    let t = TrustedStr::new("anything \u{7} at all".to_owned()).unwrap();
    assert_eq!(t.inner(), "anything \u{7} at all");
}

#[test]
fn the_order_of_distinct_hints_does_not_matter() {
    let hints = vec![
        hint("urgency", HintValue::Byte(2)),
        hint("category", HintValue::Text("im".to_owned())),
        hint("image-data", HintValue::Image(pixel())),
        hint("transient", HintValue::Other),
        hint("x-unknown", HintValue::Byte(7)),
    ];
    let wanted = parse_hints(hints.clone()).unwrap();
    for turn in 0..hints.len() {
        let mut turned = hints.clone();
        turned.rotate_left(turn);
        assert_eq!(parse_hints(turned.clone()), Ok(wanted.clone()));
        turned.reverse();
        assert_eq!(parse_hints(turned), Ok(wanted.clone()));
    }
}

#[test]
fn equal_calls_have_equal_payloads_whatever_the_order_of_hints() {
    let hints = vec![
        hint("resident", HintValue::Other),
        hint("urgency", HintValue::Byte(0)),
        hint("category", HintValue::Text("im.received".to_owned())),
    ];
    let mut turned = hints.clone();
    turned.reverse();
    let mut one = Server::new();
    let mut other = Server::new();
    let actions = vec!["default".to_owned(), "Open".to_owned()];
    let a = one.notify(3, "s".to_owned(), "b".to_owned(), actions.clone(), hints, 10).unwrap();
    let b = other.notify(3, "s".to_owned(), "b".to_owned(), actions, turned, 10).unwrap();
    assert_eq!(encode_message(&a), encode_message(&b));
}

#[test]
fn a_refusal_of_the_host_is_reported_as_invalid_arguments() {
    assert_eq!(error_class("org.freedesktop.DBus.Error.InvalidArgs"), ErrorClass::InvalidArgs);
    assert_eq!(error_class("org.freedesktop.DBus.Error.Failed"), ErrorClass::Failed);
    assert_eq!(error_class("org.freedesktop.DBus.Error.InvalidArg"), ErrorClass::Failed);
    assert_eq!(error_class(""), ErrorClass::Failed);
    assert_eq!(error_class("Server died"), ErrorClass::Failed);
}

#[test]
fn what_the_caller_is_told() {
    assert_eq!(report(CallResult::Id(7)), Ok(7));
    assert_eq!(
        report(CallResult::Error {
            name: "org.freedesktop.DBus.Error.InvalidArgs".to_owned(),
            message: Some("Invalid category".to_owned())
        }),
        Err((ErrorClass::InvalidArgs, "Invalid category".to_owned()))
    );
    assert_eq!(
        report(CallResult::Error {
            name: "org.freedesktop.DBus.Error.InvalidArgs".to_owned(),
            message: None
        }),
        Err((ErrorClass::InvalidArgs, "failed".to_owned()))
    );
    assert_eq!(
        report(CallResult::Error { name: "org.example.Other".to_owned(), message: None }),
        Err((ErrorClass::Failed, "failed".to_owned()))
    );
    assert_eq!(report(CallResult::Unknown), Err((ErrorClass::Failed, "failed".to_owned())));
}
