//! Requests and replies as payloads: the layout of each message, encoders,
//! decoders, and the proof that decoding an encoded message gives it back.

use crate::message::{
    image_view,
    text_view,
    texts_view,
    ImageParameters,
    ImageView,
    Message,
    MessageView,
    Notification,
    NotificationView,
    ReplyMessage,
    ReplyView,
    Urgency,
};
use crate::wire::{
    de_bool,
    de_bytes,
    de_i32,
    de_opt_text,
    de_opt_urgency,
    de_text,
    de_texts,
    de_u32,
    de_u64,
    holds_at,
    lemma_bool_round_trip,
    lemma_bytes_round_trip,
    lemma_holds_at_split,
    lemma_i32_round_trip,
    lemma_opt_text_round_trip,
    lemma_opt_urgency_round_trip,
    lemma_text_round_trip,
    lemma_texts_round_trip,
    lemma_u32_round_trip,
    lemma_u64_round_trip,
    put_bool,
    put_bytes,
    put_i32,
    put_opt_text,
    put_opt_urgency,
    put_text,
    put_texts,
    put_u32,
    put_u64,
    read_bool,
    read_bytes,
    read_i32,
    read_opt_text,
    read_opt_urgency,
    read_text,
    read_texts,
    read_u32,
    read_u64,
    same_view,
    ser_bool,
    ser_bytes,
    ser_i32,
    ser_opt_text,
    ser_opt_urgency,
    ser_text,
    ser_texts,
    ser_u32,
    ser_u64,
    text_fits,
    texts_fit,
};
use vstd::prelude::*;

verus! {

// ----------------------------------------------------------------- images
/// What image parameters are written as: the fields in order.
pub open spec fn ser_image(i: ImageView) -> Seq<u8> {
    ser_i32(i.width) + ser_i32(i.height) + ser_i32(i.rowstride) + ser_bool(i.has_alpha) + ser_i32(
        i.bits_per_sample,
    ) + ser_i32(i.channels) + ser_bytes(i.data)
}

/// What an optional image is written as.
pub open spec fn ser_opt_image(i: Option<ImageView>) -> Seq<u8> {
    match i {
        None => ser_u32(0),
        Some(x) => ser_u32(1) + ser_image(x),
    }
}

/// The image parameters read at `pos`, and where reading goes on.
pub open spec fn de_image(s: Seq<u8>, pos: int) -> Option<(ImageView, int)> {
    match de_i32(s, pos) {
        Some((width, p1)) => match de_i32(s, p1) {
            Some((height, p2)) => match de_i32(s, p2) {
                Some((rowstride, p3)) => match de_bool(s, p3) {
                    Some((has_alpha, p4)) => match de_i32(s, p4) {
                        Some((bits_per_sample, p5)) => match de_i32(s, p5) {
                            Some((channels, p6)) => match de_bytes(s, p6) {
                                Some((data, end)) => Some(
                                    (
                                        ImageView {
                                            width,
                                            height,
                                            rowstride,
                                            has_alpha,
                                            bits_per_sample,
                                            channels,
                                            data,
                                        },
                                        end,
                                    ),
                                ),
                                None => None,
                            },
                            None => None,
                        },
                        None => None,
                    },
                    None => None,
                },
                None => None,
            },
            None => None,
        },
        None => None,
    }
}

/// The optional image read at `pos`, and where reading goes on.
pub open spec fn de_opt_image(s: Seq<u8>, pos: int) -> Option<(Option<ImageView>, int)> {
    match de_u32(s, pos) {
        Some((tag, next)) => if tag == 0 {
            Some((None, next))
        } else if tag == 1 {
            match de_image(s, next) {
                Some((i, end)) => Some((Some(i), end)),
                None => None,
            }
        } else {
            None
        },
        None => None,
    }
}

/// The pixel data is short enough for its length to be written in 64
/// bits. That of every `ImageParameters` is.
pub open spec fn image_fits(i: ImageView) -> bool {
    i.data.len() <= u64::MAX
}

/// Appends image parameters.
pub fn put_image(out: &mut Vec<u8>, i: &ImageParameters)
    ensures
        final(out)@ == old(out)@ + ser_image(i@),
{
    put_i32(out, i.untrusted_width);
    put_i32(out, i.untrusted_height);
    put_i32(out, i.untrusted_rowstride);
    put_bool(out, i.untrusted_has_alpha);
    put_i32(out, i.untrusted_bits_per_sample);
    put_i32(out, i.untrusted_channels);
    put_bytes(out, i.untrusted_data.as_slice());
    assert(out@ =~= old(out)@ + ser_image(i@));
}

/// Appends an optional image.
pub fn put_opt_image(out: &mut Vec<u8>, i: &Option<ImageParameters>)
    ensures
        final(out)@ == old(out)@ + ser_opt_image(image_view(*i)),
{
    match i {
        None => {
            put_u32(out, 0);
        },
        Some(x) => {
            put_u32(out, 1);
            put_image(out, x);
            assert(out@ =~= old(out)@ + (ser_u32(1) + ser_image(x@)));
        },
    }
}

/// Reads image parameters at `pos`.
pub fn read_image(bytes: &[u8], pos: usize) -> (r: Option<(ImageParameters, usize)>)
    ensures
        same_view(r, de_image(bytes@, pos as int)),
{
    let (untrusted_width, p1) = read_i32(bytes, pos)?;
    let (untrusted_height, p2) = read_i32(bytes, p1)?;
    let (untrusted_rowstride, p3) = read_i32(bytes, p2)?;
    let (untrusted_has_alpha, p4) = read_bool(bytes, p3)?;
    let (untrusted_bits_per_sample, p5) = read_i32(bytes, p4)?;
    let (untrusted_channels, p6) = read_i32(bytes, p5)?;
    let (untrusted_data, end) = read_bytes(bytes, p6)?;
    Some(
        (
            ImageParameters {
                untrusted_width,
                untrusted_height,
                untrusted_rowstride,
                untrusted_has_alpha,
                untrusted_bits_per_sample,
                untrusted_channels,
                untrusted_data,
            },
            end,
        ),
    )
}

/// Reads an optional image at `pos`.
pub fn read_opt_image(bytes: &[u8], pos: usize) -> (r: Option<(Option<ImageParameters>, usize)>)
    ensures
        match (r, de_opt_image(bytes@, pos as int)) {
            (Some((i, next)), Some((spec_i, spec_next))) => image_view(i) == spec_i && next
                == spec_next,
            (None, None) => true,
            _ => false,
        },
{
    let (tag, next) = read_u32(bytes, pos)?;
    if tag == 0 {
        Some((None, next))
    } else if tag == 1 {
        let (i, end) = read_image(bytes, next)?;
        Some((Some(i), end))
    } else {
        None
    }
}

/// Reading image parameters where they were written gives them back.
pub proof fn lemma_image_round_trip(s: Seq<u8>, pos: int, i: ImageView)
    requires
        holds_at(s, pos, ser_image(i)),
        image_fits(i),
    ensures
        de_image(s, pos) == Some((i, pos + ser_image(i).len())),
{
    let a1 = ser_i32(i.width);
    let a2 = a1 + ser_i32(i.height);
    let a3 = a2 + ser_i32(i.rowstride);
    let a4 = a3 + ser_bool(i.has_alpha);
    let a5 = a4 + ser_i32(i.bits_per_sample);
    let a6 = a5 + ser_i32(i.channels);
    lemma_holds_at_split(s, pos, a6, ser_bytes(i.data));
    lemma_holds_at_split(s, pos, a5, ser_i32(i.channels));
    lemma_holds_at_split(s, pos, a4, ser_i32(i.bits_per_sample));
    lemma_holds_at_split(s, pos, a3, ser_bool(i.has_alpha));
    lemma_holds_at_split(s, pos, a2, ser_i32(i.rowstride));
    lemma_holds_at_split(s, pos, a1, ser_i32(i.height));
    lemma_i32_round_trip(s, pos, i.width);
    lemma_i32_round_trip(s, pos + 4, i.height);
    lemma_i32_round_trip(s, pos + 8, i.rowstride);
    lemma_bool_round_trip(s, pos + 12, i.has_alpha);
    lemma_i32_round_trip(s, pos + 13, i.bits_per_sample);
    lemma_i32_round_trip(s, pos + 17, i.channels);
    lemma_bytes_round_trip(s, pos + 21, i.data);
}

/// Reading an optional image where one was written gives it back.
pub proof fn lemma_opt_image_round_trip(s: Seq<u8>, pos: int, i: Option<ImageView>)
    requires
        holds_at(s, pos, ser_opt_image(i)),
        i matches Some(x) ==> image_fits(x),
    ensures
        de_opt_image(s, pos) == Some((i, pos + ser_opt_image(i).len())),
{
    match i {
        None => {
            lemma_u32_round_trip(s, pos, 0);
        },
        Some(x) => {
            lemma_holds_at_split(s, pos, ser_u32(1), ser_image(x));
            lemma_u32_round_trip(s, pos, 1);
            lemma_image_round_trip(s, pos + 4, x);
        },
    }
}

// ---------------------------------------------------------- notifications
/// The first half of what a first-version notification is written as: the
/// variant number 0 and the fields up to the summary.
pub open spec fn ser_v1_head(
    suppress_sound: bool,
    transient: bool,
    resident: bool,
    urgency: Option<Urgency>,
    replaces_id: u32,
    summary: Seq<char>,
) -> Seq<u8> {
    ser_u32(0) + ser_bool(suppress_sound) + ser_bool(transient) + ser_bool(resident)
        + ser_opt_urgency(urgency) + ser_u32(replaces_id) + ser_text(summary)
}

/// The second half: the fields from the body on.
pub open spec fn ser_v1_tail(
    body: Seq<char>,
    actions: Seq<Seq<char>>,
    category: Option<Seq<char>>,
    expire_timeout: i32,
    image: Option<ImageView>,
) -> Seq<u8> {
    ser_text(body) + ser_texts(actions) + ser_opt_text(category) + ser_i32(expire_timeout)
        + ser_opt_image(image)
}

/// What a notification is written as: the number of its variant, then the
/// fields in order.
pub open spec fn ser_notification(n: NotificationView) -> Seq<u8> {
    match n {
        NotificationView::V1 {
            suppress_sound,
            transient,
            resident,
            urgency,
            replaces_id,
            summary,
            body,
            actions,
            category,
            expire_timeout,
            image,
        } => ser_v1_head(suppress_sound, transient, resident, urgency, replaces_id, summary)
            + ser_v1_tail(body, actions, category, expire_timeout, image),
    }
}

/// The fields of the first half of a first-version notification.
pub struct V1Head {
    pub suppress_sound: bool,
    pub transient: bool,
    pub resident: bool,
    pub urgency: Option<Urgency>,
    pub replaces_id: u32,
    pub summary: Seq<char>,
}

/// The fields of the second half of a first-version notification.
pub struct V1Tail {
    pub body: Seq<char>,
    pub actions: Seq<Seq<char>>,
    pub category: Option<Seq<char>>,
    pub expire_timeout: i32,
    pub image: Option<ImageView>,
}

/// The first half of a notification read at `pos`, and where reading goes
/// on. Only variant 0 is known.
pub open spec fn de_v1_head(s: Seq<u8>, pos: int) -> Option<(V1Head, int)> {
    match de_u32(s, pos) {
        Some((tag, p0)) => if tag != 0 {
            None
        } else {
            match de_bool(s, p0) {
                Some((suppress_sound, p1)) => match de_bool(s, p1) {
                    Some((transient, p2)) => match de_bool(s, p2) {
                        Some((resident, p3)) => match de_opt_urgency(s, p3) {
                            Some((urgency, p4)) => match de_u32(s, p4) {
                                Some((replaces_id, p5)) => match de_text(s, p5) {
                                    Some((summary, end)) => Some(
                                        (
                                            V1Head {
                                                suppress_sound,
                                                transient,
                                                resident,
                                                urgency,
                                                replaces_id,
                                                summary,
                                            },
                                            end,
                                        ),
                                    ),
                                    None => None,
                                },
                                None => None,
                            },
                            None => None,
                        },
                        None => None,
                    },
                    None => None,
                },
                None => None,
            }
        },
        None => None,
    }
}

/// The second half of a notification read at `pos`, and where reading
/// goes on.
pub open spec fn de_v1_tail(s: Seq<u8>, pos: int) -> Option<(V1Tail, int)> {
    match de_text(s, pos) {
        Some((body, p1)) => match de_texts(s, p1) {
            Some((actions, p2)) => match de_opt_text(s, p2) {
                Some((category, p3)) => match de_i32(s, p3) {
                    Some((expire_timeout, p4)) => match de_opt_image(s, p4) {
                        Some((image, end)) => Some(
                            (V1Tail { body, actions, category, expire_timeout, image }, end),
                        ),
                        None => None,
                    },
                    None => None,
                },
                None => None,
            },
            None => None,
        },
        None => None,
    }
}

/// The notification made of the two halves.
pub open spec fn join_v1(head: V1Head, tail: V1Tail) -> NotificationView {
    NotificationView::V1 {
        suppress_sound: head.suppress_sound,
        transient: head.transient,
        resident: head.resident,
        urgency: head.urgency,
        replaces_id: head.replaces_id,
        summary: head.summary,
        body: tail.body,
        actions: tail.actions,
        category: tail.category,
        expire_timeout: tail.expire_timeout,
        image: tail.image,
    }
}

/// The notification read at `pos`, and where reading goes on.
pub open spec fn de_notification(s: Seq<u8>, pos: int) -> Option<(NotificationView, int)> {
    match de_v1_head(s, pos) {
        Some((head, mid)) => match de_v1_tail(s, mid) {
            Some((tail, end)) => Some((join_v1(head, tail), end)),
            None => None,
        },
        None => None,
    }
}

/// Every string, sequence and image of the notification can be written.
/// This holds of the view of every `Notification`.
pub open spec fn notification_fits(n: NotificationView) -> bool {
    match n {
        NotificationView::V1 { summary, body, actions, category, image, .. } => {
            &&& text_fits(summary)
            &&& text_fits(body)
            &&& texts_fit(actions)
            &&& category matches Some(c) ==> text_fits(c)
            &&& image matches Some(i) ==> image_fits(i)
        },
    }
}

proof fn lemma_append5(
    base: Seq<u8>,
    a: Seq<u8>,
    b: Seq<u8>,
    c: Seq<u8>,
    d: Seq<u8>,
    e: Seq<u8>,
)
    ensures
        ((((base + a) + b) + c) + d) + e == base + ((((a + b) + c) + d) + e),
{
    assert(((((base + a) + b) + c) + d) + e =~= base + ((((a + b) + c) + d) + e));
}

fn put_v1_head(
    out: &mut Vec<u8>,
    suppress_sound: bool,
    transient: bool,
    resident: bool,
    urgency: Option<Urgency>,
    replaces_id: u32,
    summary: &String,
)
    ensures
        final(out)@ == old(out)@ + ser_v1_head(
            suppress_sound,
            transient,
            resident,
            urgency,
            replaces_id,
            summary@,
        ),
{
    put_u32(out, 0);
    put_bool(out, suppress_sound);
    put_bool(out, transient);
    put_bool(out, resident);
    put_opt_urgency(out, urgency);
    put_u32(out, replaces_id);
    put_text(out, summary.as_str());
    assert(out@ =~= old(out)@ + ser_v1_head(
        suppress_sound,
        transient,
        resident,
        urgency,
        replaces_id,
        summary@,
    ));
}

fn put_v1_tail(
    out: &mut Vec<u8>,
    body: &String,
    actions: &Vec<String>,
    category: &Option<String>,
    expire_timeout: i32,
    image: &Option<ImageParameters>,
)
    ensures
        final(out)@ == old(out)@ + ser_v1_tail(
            body@,
            texts_view(actions@),
            text_view(*category),
            expire_timeout,
            image_view(*image),
        ),
{
    put_text(out, body.as_str());
    put_texts(out, actions);
    put_opt_text(out, category);
    put_i32(out, expire_timeout);
    put_opt_image(out, image);
    proof {
        lemma_append5(
            old(out)@,
            ser_text(body@),
            ser_texts(texts_view(actions@)),
            ser_opt_text(text_view(*category)),
            ser_i32(expire_timeout),
            ser_opt_image(image_view(*image)),
        );
    }
}

/// Appends a notification.
pub fn put_notification(out: &mut Vec<u8>, n: &Notification)
    ensures
        final(out)@ == old(out)@ + ser_notification(n@),
{
    match n {
        Notification::V1 {
            suppress_sound,
            transient,
            resident,
            urgency,
            replaces_id,
            summary,
            body,
            actions,
            category,
            expire_timeout,
            image,
        } => {
            put_v1_head(
                out,
                *suppress_sound,
                *transient,
                *resident,
                *urgency,
                *replaces_id,
                summary,
            );
            let ghost mid = out@;
            put_v1_tail(out, body, actions, category, *expire_timeout, image);
            assert(out@ =~= old(out)@ + ser_notification(n@)) by {
                let head = ser_v1_head(
                    *suppress_sound,
                    *transient,
                    *resident,
                    *urgency,
                    *replaces_id,
                    summary@,
                );
                let tail = ser_v1_tail(
                    body@,
                    texts_view(actions@),
                    text_view(*category),
                    *expire_timeout,
                    image_view(*image),
                );
                assert(mid == old(out)@ + head);
                assert(out@ == mid + tail);
                assert((old(out)@ + head) + tail =~= old(out)@ + (head + tail));
            }
        },
    }
}

/// Reads a notification at `pos`.
pub fn read_notification(bytes: &[u8], pos: usize) -> (r: Option<(Notification, usize)>)
    ensures
        same_view(r, de_notification(bytes@, pos as int)),
{
    let (tag, p0) = read_u32(bytes, pos)?;
    if tag != 0 {
        return None;
    }
    let (suppress_sound, p1) = read_bool(bytes, p0)?;
    let (transient, p2) = read_bool(bytes, p1)?;
    let (resident, p3) = read_bool(bytes, p2)?;
    let (urgency, p4) = read_opt_urgency(bytes, p3)?;
    let (replaces_id, p5) = read_u32(bytes, p4)?;
    let (summary, p6) = read_text(bytes, p5)?;
    let (body, p7) = read_text(bytes, p6)?;
    let (actions, p8) = read_texts(bytes, p7)?;
    let (category, p9) = read_opt_text(bytes, p8)?;
    let (expire_timeout, p10) = read_i32(bytes, p9)?;
    let (image, end) = read_opt_image(bytes, p10)?;
    Some(
        (
            Notification::V1 {
                suppress_sound,
                transient,
                resident,
                urgency,
                replaces_id,
                summary,
                body,
                actions,
                category,
                expire_timeout,
                image,
            },
            end,
        ),
    )
}

proof fn lemma_v1_head_round_trip(s: Seq<u8>, pos: int, head: V1Head)
    requires
        holds_at(
            s,
            pos,
            ser_v1_head(
                head.suppress_sound,
                head.transient,
                head.resident,
                head.urgency,
                head.replaces_id,
                head.summary,
            ),
        ),
        text_fits(head.summary),
    ensures
        de_v1_head(s, pos) == Some(
            (
                head,
                pos + ser_v1_head(
                    head.suppress_sound,
                    head.transient,
                    head.resident,
                    head.urgency,
                    head.replaces_id,
                    head.summary,
                ).len(),
            ),
        ),
{
    let a0 = ser_u32(0);
    let a1 = a0 + ser_bool(head.suppress_sound);
    let a2 = a1 + ser_bool(head.transient);
    let a3 = a2 + ser_bool(head.resident);
    let a4 = a3 + ser_opt_urgency(head.urgency);
    let a5 = a4 + ser_u32(head.replaces_id);
    lemma_holds_at_split(s, pos, a5, ser_text(head.summary));
    lemma_holds_at_split(s, pos, a4, ser_u32(head.replaces_id));
    lemma_holds_at_split(s, pos, a3, ser_opt_urgency(head.urgency));
    lemma_holds_at_split(s, pos, a2, ser_bool(head.resident));
    lemma_holds_at_split(s, pos, a1, ser_bool(head.transient));
    lemma_holds_at_split(s, pos, a0, ser_bool(head.suppress_sound));
    lemma_u32_round_trip(s, pos, 0);
    lemma_bool_round_trip(s, pos + a0.len(), head.suppress_sound);
    lemma_bool_round_trip(s, pos + a1.len(), head.transient);
    lemma_bool_round_trip(s, pos + a2.len(), head.resident);
    lemma_opt_urgency_round_trip(s, pos + a3.len(), head.urgency);
    lemma_u32_round_trip(s, pos + a4.len(), head.replaces_id);
    lemma_text_round_trip(s, pos + a5.len(), head.summary);
}

#[verifier::rlimit(60)]
proof fn lemma_v1_tail_round_trip(s: Seq<u8>, pos: int, tail: V1Tail)
    requires
        holds_at(
            s,
            pos,
            ser_v1_tail(tail.body, tail.actions, tail.category, tail.expire_timeout, tail.image),
        ),
        text_fits(tail.body),
        texts_fit(tail.actions),
        tail.category matches Some(c) ==> text_fits(c),
        tail.image matches Some(i) ==> image_fits(i),
    ensures
        de_v1_tail(s, pos) == Some(
            (
                tail,
                pos + ser_v1_tail(
                    tail.body,
                    tail.actions,
                    tail.category,
                    tail.expire_timeout,
                    tail.image,
                ).len(),
            ),
        ),
{
    let a0 = ser_text(tail.body);
    let a1 = a0 + ser_texts(tail.actions);
    let a2 = a1 + ser_opt_text(tail.category);
    let a3 = a2 + ser_i32(tail.expire_timeout);
    lemma_holds_at_split(s, pos, a3, ser_opt_image(tail.image));
    lemma_holds_at_split(s, pos, a2, ser_i32(tail.expire_timeout));
    lemma_holds_at_split(s, pos, a1, ser_opt_text(tail.category));
    lemma_holds_at_split(s, pos, a0, ser_texts(tail.actions));
    lemma_text_round_trip(s, pos, tail.body);
    lemma_texts_round_trip(s, pos + a0.len(), tail.actions);
    lemma_opt_text_round_trip(s, pos + a1.len(), tail.category);
    lemma_i32_round_trip(s, pos + a2.len(), tail.expire_timeout);
    lemma_opt_image_round_trip(s, pos + a3.len(), tail.image);
}

/// Reading a notification where one was written gives it back.
pub proof fn lemma_notification_round_trip(s: Seq<u8>, pos: int, n: NotificationView)
    requires
        holds_at(s, pos, ser_notification(n)),
        notification_fits(n),
    ensures
        de_notification(s, pos) == Some((n, pos + ser_notification(n).len())),
{
    match n {
        NotificationView::V1 {
            suppress_sound,
            transient,
            resident,
            urgency,
            replaces_id,
            summary,
            body,
            actions,
            category,
            expire_timeout,
            image,
        } => {
            let head = V1Head { suppress_sound, transient, resident, urgency, replaces_id, summary };
            let tail = V1Tail { body, actions, category, expire_timeout, image };
            let h = ser_v1_head(suppress_sound, transient, resident, urgency, replaces_id, summary);
            let t = ser_v1_tail(body, actions, category, expire_timeout, image);
            lemma_holds_at_split(s, pos, h, t);
            lemma_v1_head_round_trip(s, pos, head);
            lemma_v1_tail_round_trip(s, pos + h.len(), tail);
            assert(join_v1(head, tail) == n);
        },
    }
}

// ---------------------------------------------------------------- requests
/// What a request is written as: its sequence number, then the
/// notification.
pub open spec fn ser_message(m: MessageView) -> Seq<u8> {
    ser_u64(m.id) + ser_notification(m.notification)
}

/// The request that `s` holds from its first byte to its last, if it
/// holds one.
pub open spec fn de_message(s: Seq<u8>) -> Option<MessageView> {
    match de_u64(s, 0) {
        Some((id, next)) => match de_notification(s, next) {
            Some((notification, end)) => if end == s.len() {
                Some(MessageView { id, notification })
            } else {
                None
            },
            None => None,
        },
        None => None,
    }
}

/// The payload of a request.
pub fn encode_message(m: &Message) -> (out: Vec<u8>)
    ensures
        out@ == ser_message(m@),
{
    let mut out: Vec<u8> = Vec::new();
    put_u64(&mut out, m.id);
    put_notification(&mut out, &m.notification);
    assert(out@ =~= ser_message(m@));
    out
}

/// The request in a payload. A payload that is cut short, holds a tag or
/// a string that the format does not know, or has bytes left over, holds
/// none.
pub fn decode_message(bytes: &[u8]) -> (r: Option<Message>)
    ensures
        match r {
            Some(m) => de_message(bytes@) == Some(m@),
            None => de_message(bytes@) is None,
        },
{
    let (id, next) = read_u64(bytes, 0)?;
    let (notification, end) = read_notification(bytes, next)?;
    if end != bytes.len() {
        return None;
    }
    Some(Message { id, notification })
}

/// Decoding an encoded request gives the request back.
pub proof fn lemma_message_round_trip(m: MessageView)
    requires
        notification_fits(m.notification),
    ensures
        de_message(ser_message(m)) == Some(m),
{
    let s = ser_message(m);
    assert(s.subrange(0, s.len() as int) =~= s);
    lemma_holds_at_split(s, 0, ser_u64(m.id), ser_notification(m.notification));
    lemma_u64_round_trip(s, 0, m.id);
    lemma_notification_round_trip(s, 8, m.notification);
}

/// Two requests with the same encoding are the same request.
pub proof fn lemma_message_encoding_injective(a: MessageView, b: MessageView)
    requires
        notification_fits(a.notification),
        notification_fits(b.notification),
        ser_message(a) == ser_message(b),
    ensures
        a == b,
{
    lemma_message_round_trip(a);
    lemma_message_round_trip(b);
}

/// The payload depends on the value of the request and on nothing else:
/// two requests with the same value have the same payload, whenever and
/// wherever they are encoded.
pub proof fn lemma_message_encoding_deterministic(a: Message, b: Message)
    requires
        a@ == b@,
    ensures
        ser_message(a@) == ser_message(b@),
{
}

// ----------------------------------------------------------------- replies
/// What a reply is written as: the number of its variant, in the order of
/// declaration, then the variant's fields.
pub open spec fn ser_reply(r: ReplyView) -> Seq<u8> {
    match r {
        ReplyView::Id { id, sequence } => ser_u32(0) + ser_u32(id) + ser_u64(sequence),
        ReplyView::DBusError { name, message, sequence } => ser_u32(1) + ser_text(name)
            + ser_opt_text(message) + ser_u64(sequence),
        ReplyView::UnknownError { sequence } => ser_u32(2) + ser_u64(sequence),
        ReplyView::Dismissed { id, reason } => ser_u32(3) + ser_u32(id) + ser_u32(reason),
        ReplyView::ActionInvoked { id, action } => ser_u32(4) + ser_u32(id) + ser_text(action),
        ReplyView::ServerRestart => ser_u32(5),
    }
}

/// The fields of a D-Bus error reply read at `pos`.
pub open spec fn de_reply_error(s: Seq<u8>, pos: int) -> Option<(ReplyView, int)> {
    match de_text(s, pos) {
        Some((name, p1)) => match de_opt_text(s, p1) {
            Some((message, p2)) => match de_u64(s, p2) {
                Some((sequence, end)) => Some(
                    (ReplyView::DBusError { name, message, sequence }, end),
                ),
                None => None,
            },
            None => None,
        },
        None => None,
    }
}

/// Two `u32` read at `pos`, one after the other.
pub open spec fn de_u32_pair(s: Seq<u8>, pos: int) -> Option<((u32, u32), int)> {
    match de_u32(s, pos) {
        Some((a, p1)) => match de_u32(s, p1) {
            Some((b, end)) => Some(((a, b), end)),
            None => None,
        },
        None => None,
    }
}

/// The reply read at `pos`, and where reading goes on.
pub open spec fn de_reply_at(s: Seq<u8>, pos: int) -> Option<(ReplyView, int)> {
    match de_u32(s, pos) {
        Some((tag, p0)) => if tag == 0 {
            match de_u32(s, p0) {
                Some((id, p1)) => match de_u64(s, p1) {
                    Some((sequence, end)) => Some((ReplyView::Id { id, sequence }, end)),
                    None => None,
                },
                None => None,
            }
        } else if tag == 1 {
            de_reply_error(s, p0)
        } else if tag == 2 {
            match de_u64(s, p0) {
                Some((sequence, end)) => Some((ReplyView::UnknownError { sequence }, end)),
                None => None,
            }
        } else if tag == 3 {
            match de_u32_pair(s, p0) {
                Some(((id, reason), end)) => Some((ReplyView::Dismissed { id, reason }, end)),
                None => None,
            }
        } else if tag == 4 {
            match de_u32(s, p0) {
                Some((id, p1)) => match de_text(s, p1) {
                    Some((action, end)) => Some((ReplyView::ActionInvoked { id, action }, end)),
                    None => None,
                },
                None => None,
            }
        } else if tag == 5 {
            Some((ReplyView::ServerRestart, p0))
        } else {
            None
        },
        None => None,
    }
}

/// The reply that `s` holds from its first byte to its last, if it holds
/// one.
pub open spec fn de_reply(s: Seq<u8>) -> Option<ReplyView> {
    match de_reply_at(s, 0) {
        Some((r, end)) => if end == s.len() {
            Some(r)
        } else {
            None
        },
        None => None,
    }
}

/// Every string of the reply can be written. This holds of the view of
/// every `ReplyMessage`.
pub open spec fn reply_fits(r: ReplyView) -> bool {
    match r {
        ReplyView::DBusError { name, message, .. } => {
            &&& text_fits(name)
            &&& message matches Some(m) ==> text_fits(m)
        },
        ReplyView::ActionInvoked { action, .. } => text_fits(action),
        _ => true,
    }
}

/// The payload of a reply.
pub fn encode_reply(r: &ReplyMessage) -> (out: Vec<u8>)
    ensures
        out@ == ser_reply(r@),
{
    let mut out: Vec<u8> = Vec::new();
    match r {
        ReplyMessage::Id { id, sequence } => {
            put_u32(&mut out, 0);
            put_u32(&mut out, *id);
            put_u64(&mut out, *sequence);
        },
        ReplyMessage::DBusError { name, message, sequence } => {
            put_u32(&mut out, 1);
            put_text(&mut out, name.as_str());
            put_opt_text(&mut out, message);
            put_u64(&mut out, *sequence);
        },
        ReplyMessage::UnknownError { sequence } => {
            put_u32(&mut out, 2);
            put_u64(&mut out, *sequence);
        },
        ReplyMessage::Dismissed { id, reason } => {
            put_u32(&mut out, 3);
            put_u32(&mut out, *id);
            put_u32(&mut out, *reason);
        },
        ReplyMessage::ActionInvoked { id, action } => {
            put_u32(&mut out, 4);
            put_u32(&mut out, *id);
            put_text(&mut out, action.as_str());
        },
        ReplyMessage::ServerRestart => {
            put_u32(&mut out, 5);
        },
    }
    assert(out@ =~= ser_reply(r@));
    out
}

/// The reply in a payload. A payload that is cut short, holds a tag or a
/// string that the format does not know, or has bytes left over, holds
/// none.
pub fn decode_reply(bytes: &[u8]) -> (r: Option<ReplyMessage>)
    ensures
        match r {
            Some(m) => de_reply(bytes@) == Some(m@),
            None => de_reply(bytes@) is None,
        },
{
    let (tag, p0) = read_u32(bytes, 0)?;
    let (reply, end) = if tag == 0 {
        let (id, p1) = read_u32(bytes, p0)?;
        let (sequence, end) = read_u64(bytes, p1)?;
        (ReplyMessage::Id { id, sequence }, end)
    } else if tag == 1 {
        let (name, p1) = read_text(bytes, p0)?;
        let (message, p2) = read_opt_text(bytes, p1)?;
        let (sequence, end) = read_u64(bytes, p2)?;
        (ReplyMessage::DBusError { name, message, sequence }, end)
    } else if tag == 2 {
        let (sequence, end) = read_u64(bytes, p0)?;
        (ReplyMessage::UnknownError { sequence }, end)
    } else if tag == 3 {
        let (id, p1) = read_u32(bytes, p0)?;
        let (reason, end) = read_u32(bytes, p1)?;
        (ReplyMessage::Dismissed { id, reason }, end)
    } else if tag == 4 {
        let (id, p1) = read_u32(bytes, p0)?;
        let (action, end) = read_text(bytes, p1)?;
        (ReplyMessage::ActionInvoked { id, action }, end)
    } else if tag == 5 {
        (ReplyMessage::ServerRestart, p0)
    } else {
        return None;
    };
    if end != bytes.len() {
        return None;
    }
    Some(reply)
}

/// Decoding an encoded reply gives the reply back.
pub proof fn lemma_reply_round_trip(r: ReplyView)
    requires
        reply_fits(r),
    ensures
        de_reply(ser_reply(r)) == Some(r),
{
    let s = ser_reply(r);
    assert(s.subrange(0, s.len() as int) =~= s);
    match r {
        ReplyView::Id { id, sequence } => {
            lemma_holds_at_split(s, 0, ser_u32(0) + ser_u32(id), ser_u64(sequence));
            lemma_holds_at_split(s, 0, ser_u32(0), ser_u32(id));
            lemma_u32_round_trip(s, 0, 0);
            lemma_u32_round_trip(s, 4, id);
            lemma_u64_round_trip(s, 8, sequence);
        },
        ReplyView::DBusError { name, message, sequence } => {
            let a1 = ser_u32(1) + ser_text(name);
            let a2 = a1 + ser_opt_text(message);
            lemma_holds_at_split(s, 0, a2, ser_u64(sequence));
            lemma_holds_at_split(s, 0, a1, ser_opt_text(message));
            lemma_holds_at_split(s, 0, ser_u32(1), ser_text(name));
            lemma_u32_round_trip(s, 0, 1);
            lemma_text_round_trip(s, 4, name);
            lemma_opt_text_round_trip(s, a1.len() as int, message);
            lemma_u64_round_trip(s, a2.len() as int, sequence);
        },
        ReplyView::UnknownError { sequence } => {
            lemma_holds_at_split(s, 0, ser_u32(2), ser_u64(sequence));
            lemma_u32_round_trip(s, 0, 2);
            lemma_u64_round_trip(s, 4, sequence);
        },
        ReplyView::Dismissed { id, reason } => {
            lemma_holds_at_split(s, 0, ser_u32(3) + ser_u32(id), ser_u32(reason));
            lemma_holds_at_split(s, 0, ser_u32(3), ser_u32(id));
            lemma_u32_round_trip(s, 0, 3);
            lemma_u32_round_trip(s, 4, id);
            lemma_u32_round_trip(s, 8, reason);
        },
        ReplyView::ActionInvoked { id, action } => {
            lemma_holds_at_split(s, 0, ser_u32(4) + ser_u32(id), ser_text(action));
            lemma_holds_at_split(s, 0, ser_u32(4), ser_u32(id));
            lemma_u32_round_trip(s, 0, 4);
            lemma_u32_round_trip(s, 4, id);
            lemma_text_round_trip(s, 8, action);
        },
        ReplyView::ServerRestart => {
            lemma_u32_round_trip(s, 0, 5);
        },
    }
}

/// Two replies with the same encoding are the same reply.
pub proof fn lemma_reply_encoding_injective(a: ReplyView, b: ReplyView)
    requires
        reply_fits(a),
        reply_fits(b),
        ser_reply(a) == ser_reply(b),
    ensures
        a == b,
{
    lemma_reply_round_trip(a);
    lemma_reply_round_trip(b);
}

/// The payload depends on the value of the reply and on nothing else.
pub proof fn lemma_reply_encoding_deterministic(a: ReplyMessage, b: ReplyMessage)
    requires
        a@ == b@,
    ensures
        ser_reply(a@) == ser_reply(b@),
{
}

} // verus!
