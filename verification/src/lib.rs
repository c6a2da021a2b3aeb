//! Trust-boundary logic of a desktop-notification proxy between a guest and
//! its host: identifier mapping, sanitizers, wire format and the decisions of
//! both halves, each with a machine-checked contract.

pub mod capabilities;
pub mod codec;
pub mod emitter;
pub mod frame;
pub mod guest;
pub mod ids;
pub mod maps;
pub mod message;
pub mod sanitize;
pub mod trusted_str;
pub mod validate;
pub mod version;
pub mod wire;

pub use capabilities::{Capabilities, Capability};
pub use codec::{decode_message, decode_reply, encode_message, encode_reply};
pub use emitter::{Hints, NotificationEmitter, NotifyOutcome, NotifyRequest, OutcomeError, Rejection};
pub use frame::{encode_frame, frame_length, split_frame, FrameError, FrameStep, MAX_MESSAGE_SIZE};
pub use guest::{
    error_class, parse_hints, report, CallResult, ErrorClass, GuestAction, HintError, HintValue,
    NotifyFault, ParsedHints, Server, Unsolicited,
};
pub use ids::{GuestId, HostId};
pub use maps::{next, AllocateError, Maps};
pub use message::{ImageParameters, Message, Notification, ReplyMessage, Urgency};
pub use sanitize::{escape_markup, sanitize_str, MAX_CHARS_PER_LINE, MAX_LINES};
pub use trusted_str::TrustedStr;
pub use validate::{
    is_valid_action_name, is_valid_category, serialize_image, ImageData, ImageError, MAX_HEIGHT,
    MAX_SIZE, MAX_WIDTH,
};
pub use version::{merge_versions, negotiate, split_version, MAJOR_VERSION, MINOR_VERSION};
