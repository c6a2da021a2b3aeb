use notification_emitter::capabilities::{same_text, Capabilities, Capability};
use notification_emitter::codec::{decode_message, decode_reply, encode_message, encode_reply};
use notification_emitter::emitter::{
    Hints, NotificationEmitter, NotifyOutcome, OutcomeError, Rejection,
};
use notification_emitter::guest::{CallResult, GuestAction, HintValue, Server};
use notification_emitter::ids::GuestId;
use notification_emitter::maps::AllocateError;
use notification_emitter::message::{ImageParameters, Notification, ReplyMessage, Urgency};
use notification_emitter::validate::ImageError;

fn safe(c: char) -> bool {
    !c.is_control()
}

fn names(list: &[&str]) -> Vec<String> {
    list.iter().map(|s| s.to_string()).collect()
}

fn emitter(capabilities: &[&str]) -> NotificationEmitter {
    NotificationEmitter::for_guest("work", "dialog-information".to_owned(), &names(capabilities))
}

fn note(summary: &str, body: &str) -> Notification {
    Notification::V1 {
        suppress_sound: false,
        transient: false,
        resident: false,
        urgency: None,
        replaces_id: 0,
        summary: summary.to_owned(),
        body: body.to_owned(),
        actions: vec![],
        category: None,
        expire_timeout: -1,
        image: None,
    }
}

fn replacing(id: u32) -> Notification {
    let mut n = note("s", "b");
    let Notification::V1 { replaces_id, .. } = &mut n;
    *replaces_id = id;
    n
}

fn no_hints() -> Hints {
    Hints {
        urgency: None,
        resident: false,
        suppress_sound: false,
        transient: false,
        category: None,
        image: None,
    }
}

#[test]
fn hello() {
    let mut server = Server::new();
    let mut host = emitter(&["body", "actions"]);

    let request = server
        .notify(
            0,
            "summary".to_owned(),
            "hello".to_owned(),
            vec![],
            vec![("urgency".to_owned(), HintValue::Byte(1))],
            -1,
        )
        .unwrap();
    assert_eq!(request.id, 0);
    let arrived = decode_message(&encode_message(&request)).unwrap();
    assert_eq!(arrived, request);

    let call = host.prepare(arrived.notification, &safe).unwrap();
    assert_eq!(call.application_name, "Qube: work");
    assert_eq!(call.replaces_id, 0);
    assert_eq!(call.icon, "dialog-information");
    assert_eq!(call.summary, "work: summary");
    assert_eq!(call.body, "hello");
    assert_eq!(call.actions, Vec::<String>::new());
    assert_eq!(call.hints, Hints { urgency: Some(1), ..no_hints() });
    assert_eq!(call.expire_timeout, -1);
    assert_eq!(call.guest_hint, None);

    let reply = host.complete(NotifyOutcome::Id(42), call.guest_hint, arrived.id).unwrap();
    assert_eq!(reply, ReplyMessage::Id { id: 1, sequence: 0 });
    let back = decode_reply(&encode_reply(&reply)).unwrap();
    assert_eq!(
        server.dispatch(back),
        Ok(GuestAction::Complete { sequence: 0, result: CallResult::Id(1) })
    );
    assert_eq!(host.translate_host_id(42), Some(1));
}

#[test]
fn replaces_unknown() {
    let host = emitter(&["body"]);
    let refused = host.prepare(replacing(7), &safe).unwrap_err();
    assert_eq!(refused, Rejection::UnknownReplacesId { id: 7 });
    assert_eq!(
        NotificationEmitter::refuse(refused, 3),
        ReplyMessage::DBusError {
            name: "org.freedesktop.DBus.Error.InvalidArgs".to_owned(),
            message: Some("ID not found in guest-to-host lookup map".to_owned()),
            sequence: 3,
        }
    );
}

#[test]
fn dismissal_round_trip() {
    let mut server = Server::new();
    let mut host = emitter(&["body"]);
    let call = host.prepare(note("s", "b"), &safe).unwrap();
    assert_eq!(
        host.complete(NotifyOutcome::Id(42), call.guest_hint, 0),
        Ok(ReplyMessage::Id { id: 1, sequence: 0 })
    );
    let again = host.prepare(replacing(1), &safe).unwrap();
    assert_eq!(again.replaces_id, 42);
    assert_eq!(again.guest_hint, GuestId::new_less_safe(1));

    let told = host.on_closed(42, 3).unwrap();
    assert_eq!(told, ReplyMessage::Dismissed { id: 1, reason: 3 });
    assert_eq!(host.translate_host_id(42), None);
    assert_eq!(server.dispatch(told), Ok(GuestAction::EmitClosed { id: 1, reason: 3 }));
    assert_eq!(host.prepare(replacing(1), &safe), Err(Rejection::UnknownReplacesId { id: 1 }));
    assert_eq!(host.on_closed(42, 3), None);
}

#[test]
fn newline_wrap() {
    let host = emitter(&["body"]);
    let call = host.prepare(note("s", &"a".repeat(1001)), &safe).unwrap();
    assert_eq!(call.body, format!("{}\n{}", "a".repeat(1000), "a"));
}

#[test]
fn too_many_lines_truncation() {
    let host = emitter(&["body"]);
    let call = host.prepare(note("s", &"a\n".repeat(501)), &safe).unwrap();
    assert_eq!(call.body, "a\n".repeat(500));
}

#[test]
fn server_restart() {
    let mut server = Server::new();
    let mut host = emitter(&["body"]);
    for expected in 0..7u64 {
        let m = server.notify(0, "s".to_owned(), "b".to_owned(), vec![], vec![], -1).unwrap();
        assert_eq!(m.id, expected);
    }
    for sequence in 0..5u64 {
        let call = host.prepare(note("s", "b"), &safe).unwrap();
        let reply = host
            .complete(NotifyOutcome::Id(100 + sequence as u32), call.guest_hint, sequence)
            .unwrap();
        assert_eq!(reply, ReplyMessage::Id { id: 1 + sequence as u32, sequence });
        assert!(matches!(server.dispatch(reply), Ok(GuestAction::Complete { .. })));
    }

    let told = host.on_owner_changed();
    assert_eq!(told, ReplyMessage::ServerRestart);
    for h in 100..105 {
        assert_eq!(host.translate_host_id(h), None);
    }
    assert_eq!(host.prepare(replacing(1), &safe), Err(Rejection::UnknownReplacesId { id: 1 }));

    let back = decode_reply(&encode_reply(&told)).unwrap();
    assert_eq!(
        server.dispatch(back),
        Ok(GuestAction::Restart { failed: std::collections::HashSet::from([5, 6]) })
    );
    assert_eq!(notification_emitter::guest::server_died(), "Server died");
    assert!(server.dispatch(ReplyMessage::UnknownError { sequence: 5 }).is_err());
    assert!(server.dispatch(ReplyMessage::UnknownError { sequence: 6 }).is_err());

    let m = server.notify(0, "s".to_owned(), "b".to_owned(), vec![], vec![], -1).unwrap();
    assert_eq!(m.id, 7);
    let call = host.prepare(m.notification, &safe).unwrap();
    let reply = host.complete(NotifyOutcome::Id(9), call.guest_hint, m.id).unwrap();
    assert!(matches!(reply, ReplyMessage::Id { sequence: 7, .. }));
    assert_eq!(
        server.dispatch(reply.clone()),
        Ok(GuestAction::Complete {
            sequence: 7,
            result: match reply {
                ReplyMessage::Id { id, .. } => CallResult::Id(id),
                _ => unreachable!(),
            }
        })
    );
}

#[test]
fn markup_escape() {
    let with_markup = emitter(&["body", "body-markup"]);
    assert_eq!(with_markup.prepare(note("s", "<b>&"), &safe).unwrap().body, "&lt;b&gt;&amp;");
    let without = emitter(&["body"]);
    assert_eq!(without.prepare(note("s", "<b>&"), &safe).unwrap().body, "<b>&");
    // The summary is never escaped.
    assert_eq!(with_markup.prepare(note("<b>&", ""), &safe).unwrap().summary, "work: <b>&");
}

#[test]
fn sanitizing_comes_before_escaping() {
    let host = emitter(&["body-markup"]);
    let call = host.prepare(note("s", "<\u{7}>"), &safe).unwrap();
    assert_eq!(call.body, "&lt;\u{fffd}&gt;");
}

#[test]
fn what_the_guest_names_itself_is_not_forwarded() {
    let host = NotificationEmitter::new(
        "p/".to_owned(),
        "The App".to_owned(),
        "an-icon".to_owned(),
        &names(&[]),
    );
    let call = host.prepare(note("x\u{1b}y", "z"), &safe).unwrap();
    assert_eq!(call.application_name, "The App");
    assert_eq!(call.icon, "an-icon");
    assert_eq!(call.summary, "p/x\u{fffd}y");
}

fn full() -> Notification {
    Notification::V1 {
        suppress_sound: true,
        transient: true,
        resident: true,
        urgency: Some(Urgency::Critical),
        replaces_id: 0,
        summary: "s".to_owned(),
        body: "b".to_owned(),
        actions: vec!["default".to_owned(), "Op\u{0}en".to_owned()],
        category: Some("im.received".to_owned()),
        expire_timeout: 5000,
        image: Some(ImageParameters {
            untrusted_width: 1,
            untrusted_height: 1,
            untrusted_rowstride: 3,
            untrusted_has_alpha: false,
            untrusted_bits_per_sample: 8,
            untrusted_channels: 3,
            untrusted_data: vec![1, 2, 3],
        }),
    }
}

#[test]
fn a_capable_service_gets_everything() {
    let host = emitter(&["actions", "persistence", "sound", "body"]);
    let call = host.prepare(full(), &safe).unwrap();
    assert_eq!(call.actions, vec!["default".to_owned(), "Op\u{fffd}en".to_owned()]);
    assert_eq!(call.hints.urgency, Some(2));
    assert!(call.hints.resident && call.hints.transient && call.hints.suppress_sound);
    assert_eq!(call.hints.category, Some("im.received".to_owned()));
    let image = call.hints.image.unwrap();
    assert_eq!(
        (image.width, image.height, image.rowstride, image.has_alpha),
        (1, 1, 3, false)
    );
    assert_eq!((image.bits_per_sample, image.channels), (8, 3));
    assert_eq!(image.data, vec![1, 2, 3]);
    assert_eq!(call.expire_timeout, 5000);
}

#[test]
fn what_the_service_cannot_do_is_left_out() {
    let host = emitter(&["body"]);
    let call = host.prepare(full(), &safe).unwrap();
    assert_eq!(call.actions, Vec::<String>::new());
    assert!(!call.hints.resident && !call.hints.transient && !call.hints.suppress_sound);
    assert_eq!(call.hints.urgency, Some(2));
    assert_eq!(call.hints.category, Some("im.received".to_owned()));
    assert!(call.hints.image.is_some());
}

#[test]
fn a_bad_action_key_is_refused_whatever_the_service_supports() {
    let mut n = full();
    let Notification::V1 { actions, .. } = &mut n;
    *actions = vec!["bad key".to_owned(), "label".to_owned()];
    assert_eq!(emitter(&["actions"]).prepare(n.clone(), &safe), Err(Rejection::InvalidActionName));
    assert_eq!(emitter(&["body"]).prepare(n.clone(), &safe), Err(Rejection::InvalidActionName));
    assert_eq!(emitter(&[]).prepare(n, &safe), Err(Rejection::InvalidActionName));
}

#[test]
fn valid_actions_are_dropped_where_the_service_has_none() {
    let mut n = full();
    let Notification::V1 { actions, .. } = &mut n;
    *actions = vec!["ok".to_owned(), "any label".to_owned()];
    assert_eq!(emitter(&["body"]).prepare(n.clone(), &safe).unwrap().actions, Vec::<String>::new());
    assert_eq!(
        emitter(&["actions"]).prepare(n, &safe).unwrap().actions,
        vec!["ok".to_owned(), "any label".to_owned()]
    );
}

#[test]
fn every_rejection_has_an_input() {
    let host = emitter(&["actions"]);
    let mut n = full();
    {
        let Notification::V1 { image, .. } = &mut n;
        image.as_mut().unwrap().untrusted_bits_per_sample = 16;
    }
    assert_eq!(
        host.prepare(n.clone(), &safe),
        Err(Rejection::Image(ImageError::WrongBitsPerSample))
    );
    {
        let Notification::V1 { category, .. } = &mut n;
        *category = Some("Im".to_owned());
    }
    assert_eq!(host.prepare(n.clone(), &safe), Err(Rejection::InvalidCategory));
    {
        let Notification::V1 { actions, .. } = &mut n;
        actions[0] = "".to_owned();
    }
    assert_eq!(host.prepare(n.clone(), &safe), Err(Rejection::InvalidActionName));
    {
        let Notification::V1 { actions, .. } = &mut n;
        actions.push("odd".to_owned());
    }
    assert_eq!(host.prepare(n.clone(), &safe), Err(Rejection::OddActions));
    {
        let Notification::V1 { expire_timeout, .. } = &mut n;
        *expire_timeout = -2;
    }
    assert_eq!(host.prepare(n.clone(), &safe), Err(Rejection::BadExpireTimeout));
    {
        let Notification::V1 { replaces_id, .. } = &mut n;
        *replaces_id = 9;
    }
    assert_eq!(host.prepare(n, &safe), Err(Rejection::UnknownReplacesId { id: 9 }));
}

#[test]
fn the_reasons_in_words() {
    assert_eq!(Rejection::BadExpireTimeout.reason(), "Invalid expire timeout");
    assert_eq!(Rejection::OddActions.reason(), "Actions must have an even length");
    assert_eq!(Rejection::InvalidActionName.reason(), "Invalid action name");
    assert_eq!(Rejection::InvalidCategory.reason(), "Invalid category");
    assert_eq!(Rejection::Image(ImageError::TooLarge).reason(), "Width or height too large");
    assert_eq!(
        Rejection::UnknownReplacesId { id: 1 }.reason(),
        "ID not found in guest-to-host lookup map"
    );
}

#[test]
fn errors_of_the_service_are_passed_on() {
    let mut host = emitter(&[]);
    assert_eq!(
        host.complete(
            NotifyOutcome::MethodError {
                name: "org.example.Error".to_owned(),
                message: Some("no".to_owned())
            },
            None,
            8
        ),
        Ok(ReplyMessage::DBusError {
            name: "org.example.Error".to_owned(),
            message: Some("no".to_owned()),
            sequence: 8
        })
    );
    assert_eq!(
        host.complete(NotifyOutcome::Failed, None, 9),
        Ok(ReplyMessage::UnknownError { sequence: 9 })
    );
    assert_eq!(host.translate_host_id(1), None);
}

#[test]
fn a_service_that_breaks_its_protocol_is_found_out() {
    let mut host = emitter(&[]);
    assert_eq!(host.complete(NotifyOutcome::Id(0), None, 1), Err(OutcomeError::ZeroId));
    assert_eq!(
        host.complete(NotifyOutcome::Id(42), None, 1),
        Ok(ReplyMessage::Id { id: 1, sequence: 1 })
    );
    // The same host identifier for a second new notification.
    assert_eq!(
        host.complete(NotifyOutcome::Id(42), None, 2),
        Err(OutcomeError::Mapping(AllocateError::InUse))
    );
    // Another host identifier for a replaced notification.
    assert_eq!(
        host.complete(NotifyOutcome::Id(43), GuestId::new_less_safe(1), 3),
        Err(OutcomeError::Mapping(AllocateError::InUse))
    );
    // The replaced notification keeps both identifiers.
    assert_eq!(
        host.complete(NotifyOutcome::Id(42), GuestId::new_less_safe(1), 4),
        Ok(ReplyMessage::Id { id: 1, sequence: 4 })
    );
    assert_eq!(host.translate_host_id(42), Some(1));
    assert_eq!(host.translate_host_id(43), None);
}

#[test]
fn events_on_notifications_of_others_are_not_told() {
    let mut host = emitter(&[]);
    host.complete(NotifyOutcome::Id(42), None, 0).unwrap();
    assert_eq!(host.on_action_invoked(41, "default".to_owned()), None);
    assert_eq!(host.on_closed(41, 1), None);
    assert_eq!(
        host.on_action_invoked(42, "default".to_owned()),
        Some(ReplyMessage::ActionInvoked { id: 1, action: "default".to_owned() })
    );
    assert_eq!(host.translate_host_id(42), Some(1));
    assert_eq!(host.remove_host_id(42), Some(1));
    assert_eq!(host.remove_host_id(42), None);
    assert_eq!(host.translate_host_id(0), Some(0));
}

#[test]
fn clear_forgets_every_notification() {
    let mut host = emitter(&[]);
    host.complete(NotifyOutcome::Id(42), None, 0).unwrap();
    host.complete(NotifyOutcome::Id(43), None, 1).unwrap();
    host.clear();
    assert_eq!(host.translate_host_id(42), None);
    assert_eq!(host.translate_host_id(43), None);
}

#[test]
fn capabilities_by_name() {
    let caps = Capabilities::from_names(&names(&["body", "actions", "x-unknown", "Body-Markup"]));
    assert!(caps.contains(Capability::Body));
    assert!(caps.contains(Capability::Actions));
    assert!(!caps.contains(Capability::BodyMarkup));
    assert!(!caps.contains(Capability::Sound));
    assert_eq!(caps, {
        let mut c = Capabilities::empty();
        c.insert(Capability::Actions);
        c.insert(Capability::Body);
        c.insert(Capability::Body);
        c
    });
    assert_eq!(Capabilities::default(), Capabilities::empty());
}

#[test]
fn every_capability_has_its_name() {
    let all = [
        (Capability::Body, "body"),
        (Capability::BodyHyperlinks, "body-hyperlinks"),
        (Capability::BodyMarkup, "body-markup"),
        (Capability::Persistence, "persistence"),
        (Capability::Sound, "sound"),
        (Capability::BodyImages, "body-images"),
        (Capability::IconMulti, "icon-multi"),
        (Capability::IconStatic, "icon-static"),
        (Capability::Actions, "actions"),
        (Capability::ActionIcons, "action-icons"),
        (Capability::InlineReply, "inline-reply"),
    ];
    let mut seen = Capabilities::empty();
    for (k, (c, name)) in all.iter().enumerate() {
        assert_eq!(c.name(), *name);
        assert_eq!(c.bit(), 1u16 << k);
        assert_eq!(Capability::nth(k), *c);
        assert!(!seen.contains(*c));
        seen.insert_named(name);
        assert!(seen.contains(*c));
    }
    assert_eq!(seen, Capabilities::from_names(&names(&all.map(|p| p.1))));
}

#[test]
fn the_emitter_reports_what_the_service_can_do() {
    let host = emitter(&["persistence", "body-markup"]);
    assert!(host.persistence() && host.body_markup());
    assert!(!host.sound() && !host.actions() && !host.body());
    assert_eq!(host.capabilities(), Capabilities::from_names(&names(&["body-markup", "persistence"])));
}

#[test]
fn texts_are_compared_by_their_characters() {
    assert!(same_text("", ""));
    assert!(same_text("body", "body"));
    assert!(!same_text("body", "bod"));
    assert!(!same_text("body", "bodY"));
    assert!(!same_text("", "a"));
}

#[test]
fn a_refused_request_reaches_the_caller_as_invalid_arguments() {
    let mut server = Server::new();
    let host = emitter(&["body"]);
    let request = server
        .notify(7, "s".to_owned(), "b".to_owned(), vec![], vec![], -1)
        .unwrap();
    let refused = host.prepare(request.notification, &safe).unwrap_err();
    let reply = decode_reply(&encode_reply(&NotificationEmitter::refuse(refused, request.id)))
        .unwrap();
    let Ok(GuestAction::Complete { sequence: 0, result }) = server.dispatch(reply) else {
        panic!("the call is not completed")
    };
    assert_eq!(
        notification_emitter::guest::report(result),
        Err((
            notification_emitter::guest::ErrorClass::InvalidArgs,
            "ID not found in guest-to-host lookup map".to_owned()
        ))
    );
}
