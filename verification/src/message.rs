//! The values that travel between the two halves of the proxy, and their
//! mathematical views.
//!
//! A view holds sequences where the value holds `String` and `Vec`; the
//! contracts of the wire format and of both halves speak of views.

use vstd::prelude::*;

verus! {

/// Urgency of a notification, as the notification interface numbers it.
#[derive(Clone, Copy, Debug, PartialEq, Eq, Structural)]
pub enum Urgency {
    Low,
    Normal,
    Critical,
}

impl Urgency {
    /// The byte that stands for this urgency in the `urgency` hint.
    pub open spec fn level(self) -> u8 {
        match self {
            Urgency::Low => 0,
            Urgency::Normal => 1,
            Urgency::Critical => 2,
        }
    }

    /// The byte that stands for this urgency in the `urgency` hint.
    pub fn to_byte(self) -> (b: u8)
        ensures
            b == self.level(),
    {
        match self {
            Urgency::Low => 0,
            Urgency::Normal => 1,
            Urgency::Critical => 2,
        }
    }

    /// The urgency that `b` stands for; there is none for a byte over 2.
    pub fn from_byte(b: u8) -> (u: Option<Urgency>)
        ensures
            u is Some <==> b <= 2,
            u matches Some(v) ==> v.level() == b,
    {
        if b == 0 {
            Some(Urgency::Low)
        } else if b == 1 {
            Some(Urgency::Normal)
        } else if b == 2 {
            Some(Urgency::Critical)
        } else {
            None
        }
    }
}

/// Raw pixels as the guest sent them. Nothing in here has been checked.
#[derive(Clone, Debug, PartialEq, Eq)]
pub struct ImageParameters {
    /// The width of the image.  Not trusted.
    pub untrusted_width: i32,
    /// The height of the image.  Not trusted.
    pub untrusted_height: i32,
    /// The rowstride of the image.  Not trusted.
    pub untrusted_rowstride: i32,
    /// Whether the image has an alpha value.
    pub untrusted_has_alpha: bool,
    /// The bits per sample of the image.  Not trusted.
    pub untrusted_bits_per_sample: i32,
    /// The number of channels of the image.  Not trusted.
    pub untrusted_channels: i32,
    /// The image data.  Not trusted.
    pub untrusted_data: Vec<u8>,
}

/// View of [`ImageParameters`].
pub struct ImageView {
    pub width: i32,
    pub height: i32,
    pub rowstride: i32,
    pub has_alpha: bool,
    pub bits_per_sample: i32,
    pub channels: i32,
    pub data: Seq<u8>,
}

impl View for ImageParameters {
    type V = ImageView;

    open spec fn view(&self) -> ImageView {
        ImageView {
            width: self.untrusted_width,
            height: self.untrusted_height,
            rowstride: self.untrusted_rowstride,
            has_alpha: self.untrusted_has_alpha,
            bits_per_sample: self.untrusted_bits_per_sample,
            channels: self.untrusted_channels,
            data: self.untrusted_data@,
        }
    }
}

/// A notification request. New kinds of request are added as new variants,
/// never as new fields of an old one, so that a receiver that knows a
/// variant can always read it.
#[derive(Clone, Debug, PartialEq, Eq)]
pub enum Notification {
    V1 {
        suppress_sound: bool,
        transient: bool,
        resident: bool,
        urgency: Option<Urgency>,
        /// Guest identifier of the notification to replace; 0 for a new one.
        replaces_id: u32,
        summary: String,
        body: String,
        /// Alternating action keys and labels.
        actions: Vec<String>,
        category: Option<String>,
        /// Milliseconds; -1 leaves it to the service, 0 means never.
        expire_timeout: i32,
        image: Option<ImageParameters>,
    },
}

/// View of [`Notification`].
pub enum NotificationView {
    V1 {
        suppress_sound: bool,
        transient: bool,
        resident: bool,
        urgency: Option<Urgency>,
        replaces_id: u32,
        summary: Seq<char>,
        body: Seq<char>,
        actions: Seq<Seq<char>>,
        category: Option<Seq<char>>,
        expire_timeout: i32,
        image: Option<ImageView>,
    },
}

/// The view of an optional string.
pub open spec fn text_view(s: Option<String>) -> Option<Seq<char>> {
    match s {
        Some(t) => Some(t@),
        None => None,
    }
}

/// The view of an optional image.
pub open spec fn image_view(i: Option<ImageParameters>) -> Option<ImageView> {
    match i {
        Some(p) => Some(p@),
        None => None,
    }
}

/// The views of the strings of `v`, in order.
pub open spec fn texts_view(v: Seq<String>) -> Seq<Seq<char>> {
    v.map_values(|s: String| s@)
}

impl View for Notification {
    type V = NotificationView;

    open spec fn view(&self) -> NotificationView {
        match *self {
            Notification::V1 {
                suppress_sound,
                transient,
                resident,
                urgency,
                replaces_id,
                summary,
                body,
                actions,
                category,
                expire_timeout,
                image,
            } => NotificationView::V1 {
                suppress_sound,
                transient,
                resident,
                urgency,
                replaces_id,
                summary: summary@,
                body: body@,
                actions: texts_view(actions@),
                category: text_view(category),
                expire_timeout,
                image: image_view(image),
            },
        }
    }
}

/// A request on the wire: the notification and the sequence number that
/// the guest gave it. The host echoes the number in its answer.
#[derive(Clone, Debug, PartialEq, Eq)]
pub struct Message {
    pub id: u64,
    pub notification: Notification,
}

/// View of [`Message`].
pub struct MessageView {
    pub id: u64,
    pub notification: NotificationView,
}

impl View for Message {
    type V = MessageView;

    open spec fn view(&self) -> MessageView {
        MessageView { id: self.id, notification: self.notification@ }
    }
}

/// Messages sent by the host.
#[derive(Clone, Debug, PartialEq, Eq)]
pub enum ReplyMessage {
    /// Notification successfully sent.
    Id {
        /// Guest identifier of the notification.
        id: u32,
        /// The sequence number of the request.
        sequence: u64,
    },
    /// The request failed with a D-Bus error.
    DBusError {
        /// Error name
        name: String,
        /// Error message
        message: Option<String>,
        /// The sequence number of the request.
        sequence: u64,
    },
    /// Something unknown went wrong.
    UnknownError {
        /// The sequence number of the request.
        sequence: u64,
    },
    /// Notification was dismissed by the server.
    Dismissed {
        /// Guest identifier of the dismissed notification.
        id: u32,
        /// Reason the notification was dismissed.
        reason: u32,
    },
    /// An action was invoked.
    ActionInvoked {
        /// Guest identifier of the notification on which the action was invoked.
        id: u32,
        /// Action that was invoked
        action: String,
    },
    /// The real notification service restarted.
    ServerRestart,
}

/// View of [`ReplyMessage`].
pub enum ReplyView {
    Id { id: u32, sequence: u64 },
    DBusError { name: Seq<char>, message: Option<Seq<char>>, sequence: u64 },
    UnknownError { sequence: u64 },
    Dismissed { id: u32, reason: u32 },
    ActionInvoked { id: u32, action: Seq<char> },
    ServerRestart,
}

impl View for ReplyMessage {
    type V = ReplyView;

    open spec fn view(&self) -> ReplyView {
        match *self {
            ReplyMessage::Id { id, sequence } => ReplyView::Id { id, sequence },
            ReplyMessage::DBusError { name, message, sequence } => ReplyView::DBusError {
                name: name@,
                message: text_view(message),
                sequence,
            },
            ReplyMessage::UnknownError { sequence } => ReplyView::UnknownError { sequence },
            ReplyMessage::Dismissed { id, reason } => ReplyView::Dismissed { id, reason },
            ReplyMessage::ActionInvoked { id, action } => ReplyView::ActionInvoked {
                id,
                action: action@,
            },
            ReplyMessage::ServerRestart => ReplyView::ServerRestart,
        }
    }
}

impl ReplyView {
    /// The sequence number of the request that this reply answers, if it
    /// answers one.
    pub open spec fn answers(self) -> Option<u64> {
        match self {
            ReplyView::Id { sequence, .. } => Some(sequence),
            ReplyView::DBusError { sequence, .. } => Some(sequence),
            ReplyView::UnknownError { sequence } => Some(sequence),
            _ => None,
        }
    }
}

} // verus!
