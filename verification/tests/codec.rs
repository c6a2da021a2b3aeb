use notification_emitter::codec::{
    decode_message, decode_reply, encode_message, encode_reply, put_notification,
};
use notification_emitter::message::{
    ImageParameters, Message, Notification, ReplyMessage, Urgency,
};

fn plain() -> Notification {
    Notification::V1 {
        suppress_sound: true,
        transient: false,
        resident: false,
        urgency: None,
        replaces_id: 0,
        summary: "".to_owned(),
        body: "".to_owned(),
        actions: vec![],
        category: None,
        expire_timeout: 0,
        image: None,
    }
}

fn rich() -> Notification {
    Notification::V1 {
        suppress_sound: false,
        transient: true,
        resident: true,
        urgency: Some(Urgency::Critical),
        replaces_id: 0x0102_0304,
        summary: "h\u{e9}".to_owned(),
        body: "line\nbreak".to_owned(),
        actions: vec!["default".to_owned(), "Open".to_owned()],
        category: Some("im.received".to_owned()),
        expire_timeout: -1,
        image: Some(ImageParameters {
            untrusted_width: 1,
            untrusted_height: 2,
            untrusted_rowstride: 3,
            untrusted_has_alpha: false,
            untrusted_bits_per_sample: 8,
            untrusted_channels: 3,
            untrusted_data: vec![9, 8, 7, 6, 5, 4],
        }),
    }
}

#[test]
fn test_discriminant_serialized() {
    let mut v: Vec<u8> = Vec::new();
    put_notification(&mut v, &plain());
    assert_eq!(&v[..4], &[0, 0, 0, 0][..])
}

#[test]
fn test_enum_extensibility() {
    // A variant is written as its number in four bytes, whatever other
    // variants its type has: the first variant of a reply and the only
    // variant of a notification both begin with four zero bytes.
    let serialized = encode_reply(&ReplyMessage::Id { id: 1, sequence: 0 });
    let deserialized = decode_reply(&serialized).unwrap();
    assert!(matches!(deserialized, ReplyMessage::Id { id: 1, sequence: 0 }));
    let mut notification: Vec<u8> = Vec::new();
    put_notification(&mut notification, &plain());
    assert_eq!(serialized[..4], notification[..4]);
}

#[test]
fn the_plain_request_byte_for_byte() {
    let bytes = encode_message(&Message { id: 0x0807_0605_0403_0201, notification: plain() });
    let mut expected: Vec<u8> = vec![1, 2, 3, 4, 5, 6, 7, 8];
    expected.extend_from_slice(&[0, 0, 0, 0]); // variant
    expected.extend_from_slice(&[1, 0, 0]); // three flags
    expected.extend_from_slice(&[0, 0, 0, 0]); // no urgency
    expected.extend_from_slice(&[0, 0, 0, 0]); // replaces_id
    expected.extend_from_slice(&[0; 8]); // summary
    expected.extend_from_slice(&[0; 8]); // body
    expected.extend_from_slice(&[0; 8]); // actions
    expected.extend_from_slice(&[0, 0, 0, 0]); // no category
    expected.extend_from_slice(&[0, 0, 0, 0]); // expire_timeout
    expected.extend_from_slice(&[0, 0, 0, 0]); // no image
    assert_eq!(bytes, expected);
}

#[test]
fn the_rich_request_byte_for_byte() {
    let bytes = encode_message(&Message { id: 2, notification: rich() });
    let mut e: Vec<u8> = vec![2, 0, 0, 0, 0, 0, 0, 0];
    e.extend_from_slice(&[0, 0, 0, 0]);
    e.extend_from_slice(&[0, 1, 1]);
    e.extend_from_slice(&[1, 0, 0, 0, 2, 0, 0, 0]);
    e.extend_from_slice(&[4, 3, 2, 1]);
    e.extend_from_slice(&[3, 0, 0, 0, 0, 0, 0, 0, b'h', 0xc3, 0xa9]);
    e.extend_from_slice(&[10, 0, 0, 0, 0, 0, 0, 0]);
    e.extend_from_slice(b"line\nbreak");
    e.extend_from_slice(&[2, 0, 0, 0, 0, 0, 0, 0]);
    e.extend_from_slice(&[7, 0, 0, 0, 0, 0, 0, 0]);
    e.extend_from_slice(b"default");
    e.extend_from_slice(&[4, 0, 0, 0, 0, 0, 0, 0]);
    e.extend_from_slice(b"Open");
    e.extend_from_slice(&[1, 0, 0, 0, 11, 0, 0, 0, 0, 0, 0, 0]);
    e.extend_from_slice(b"im.received");
    e.extend_from_slice(&[0xff, 0xff, 0xff, 0xff]);
    e.extend_from_slice(&[1, 0, 0, 0]);
    e.extend_from_slice(&[1, 0, 0, 0, 2, 0, 0, 0, 3, 0, 0, 0, 0, 8, 0, 0, 0, 3, 0, 0, 0]);
    e.extend_from_slice(&[6, 0, 0, 0, 0, 0, 0, 0, 9, 8, 7, 6, 5, 4]);
    assert_eq!(bytes, e);
}

#[test]
fn requests_round_trip() {
    for (id, n) in [(0u64, plain()), (u64::MAX, rich()), (77, rich())] {
        let m = Message { id, notification: n };
        let bytes = encode_message(&m);
        assert_eq!(decode_message(&bytes), Some(m));
    }
}

#[test]
fn encoding_is_deterministic() {
    let m = Message { id: 5, notification: rich() };
    assert_eq!(encode_message(&m), encode_message(&m.clone()));
    let r = ReplyMessage::ActionInvoked { id: 3, action: "default".to_owned() };
    assert_eq!(encode_reply(&r), encode_reply(&r.clone()));
}

#[test]
fn every_urgency_round_trips() {
    for (u, level) in [(Urgency::Low, 0u8), (Urgency::Normal, 1), (Urgency::Critical, 2)] {
        let mut n = plain();
        let Notification::V1 { urgency, .. } = &mut n;
        *urgency = Some(u);
        let m = Message { id: 1, notification: n };
        let bytes = encode_message(&m);
        assert_eq!(bytes[15..23], [1, 0, 0, 0, level, 0, 0, 0]);
        assert_eq!(decode_message(&bytes), Some(m));
    }
}

#[test]
fn trailing_bytes_are_refused() {
    let mut bytes = encode_message(&Message { id: 1, notification: rich() });
    bytes.push(0);
    assert_eq!(decode_message(&bytes), None);
    let mut reply = encode_reply(&ReplyMessage::ServerRestart);
    assert_eq!(decode_reply(&reply), Some(ReplyMessage::ServerRestart));
    reply.push(0);
    assert_eq!(decode_reply(&reply), None);
}

#[test]
fn every_truncation_is_refused() {
    let bytes = encode_message(&Message { id: 1, notification: rich() });
    for n in 0..bytes.len() {
        assert_eq!(decode_message(&bytes[..n]), None, "cut at {}", n);
    }
    let reply = encode_reply(&ReplyMessage::DBusError {
        name: "a.b".to_owned(),
        message: Some("m".to_owned()),
        sequence: 3,
    });
    for n in 0..reply.len() {
        assert_eq!(decode_reply(&reply[..n]), None, "cut at {}", n);
    }
}

#[test]
fn unknown_tags_are_refused() {
    let good = encode_message(&Message { id: 1, notification: plain() });
    let mut variant = good.clone();
    variant[8] = 1;
    assert_eq!(decode_message(&variant), None);
    let mut flag = good.clone();
    flag[12] = 2;
    assert_eq!(decode_message(&flag), None);
    let mut option = good.clone();
    option[15] = 2;
    assert_eq!(decode_message(&option), None);
    let mut wide_option = good.clone();
    wide_option[16] = 1;
    assert_eq!(decode_message(&wide_option), None);
    assert_eq!(decode_reply(&[6, 0, 0, 0]), None);
    assert_eq!(decode_reply(&[5, 0, 0, 1]), None);
}

#[test]
fn an_unknown_urgency_is_refused() {
    let mut n = plain();
    let Notification::V1 { urgency, .. } = &mut n;
    *urgency = Some(Urgency::Low);
    let mut bytes = encode_message(&Message { id: 1, notification: n });
    bytes[19] = 3;
    assert_eq!(decode_message(&bytes), None);
}

#[test]
fn text_that_is_not_utf8_is_refused() {
    let mut reply = encode_reply(&ReplyMessage::ActionInvoked { id: 1, action: "ab".to_owned() });
    assert_eq!(reply.len(), 18);
    reply[16] = 0xff;
    assert_eq!(decode_reply(&reply), None);
    reply[16] = 0xc3;
    reply[17] = 0xa9;
    assert_eq!(
        decode_reply(&reply),
        Some(ReplyMessage::ActionInvoked { id: 1, action: "\u{e9}".to_owned() })
    );
}

#[test]
fn a_length_past_the_end_is_refused() {
    let mut reply = encode_reply(&ReplyMessage::ActionInvoked { id: 1, action: "ab".to_owned() });
    reply[8] = 3;
    assert_eq!(decode_reply(&reply), None);
    reply[8] = 2;
    reply[15] = 0x80;
    assert_eq!(decode_reply(&reply), None);
}

#[test]
fn replies_byte_for_byte() {
    assert_eq!(
        encode_reply(&ReplyMessage::Id { id: 1, sequence: 2 }),
        vec![0, 0, 0, 0, 1, 0, 0, 0, 2, 0, 0, 0, 0, 0, 0, 0]
    );
    assert_eq!(
        encode_reply(&ReplyMessage::DBusError {
            name: "n".to_owned(),
            message: None,
            sequence: 0x0100,
        }),
        vec![1, 0, 0, 0, 1, 0, 0, 0, 0, 0, 0, 0, b'n', 0, 0, 0, 0, 0, 1, 0, 0, 0, 0, 0, 0]
    );
    assert_eq!(
        encode_reply(&ReplyMessage::DBusError {
            name: "n".to_owned(),
            message: Some("m".to_owned()),
            sequence: 1,
        }),
        vec![
            1, 0, 0, 0, 1, 0, 0, 0, 0, 0, 0, 0, b'n', 1, 0, 0, 0, 1, 0, 0, 0, 0, 0, 0, 0, b'm',
            1, 0, 0, 0, 0, 0, 0, 0
        ]
    );
    assert_eq!(
        encode_reply(&ReplyMessage::UnknownError { sequence: 9 }),
        vec![2, 0, 0, 0, 9, 0, 0, 0, 0, 0, 0, 0]
    );
    assert_eq!(
        encode_reply(&ReplyMessage::Dismissed { id: 1, reason: 3 }),
        vec![3, 0, 0, 0, 1, 0, 0, 0, 3, 0, 0, 0]
    );
    assert_eq!(
        encode_reply(&ReplyMessage::ActionInvoked { id: 0x0100_0000, action: "k".to_owned() }),
        vec![4, 0, 0, 0, 0, 0, 0, 1, 1, 0, 0, 0, 0, 0, 0, 0, b'k']
    );
    assert_eq!(encode_reply(&ReplyMessage::ServerRestart), vec![5, 0, 0, 0]);
}

#[test]
fn replies_round_trip() {
    let replies = vec![
        ReplyMessage::Id { id: u32::MAX, sequence: u64::MAX },
        ReplyMessage::DBusError { name: "a.b.C".to_owned(), message: None, sequence: 0 },
        ReplyMessage::DBusError {
            name: "".to_owned(),
            message: Some("\u{1f600} text".to_owned()),
            sequence: 4,
        },
        ReplyMessage::UnknownError { sequence: 1 << 40 },
        ReplyMessage::Dismissed { id: 7, reason: 2 },
        ReplyMessage::ActionInvoked { id: 7, action: "default".to_owned() },
        ReplyMessage::ServerRestart,
    ];
    for r in replies {
        assert_eq!(decode_reply(&encode_reply(&r)), Some(r));
    }
}

#[test]
fn different_requests_have_different_payloads() {
    let a = encode_message(&Message { id: 1, notification: plain() });
    let b = encode_message(&Message { id: 2, notification: plain() });
    let c = encode_message(&Message { id: 1, notification: rich() });
    assert_ne!(a, b);
    assert_ne!(a, c);
}
