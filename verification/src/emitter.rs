//! The host half: what is done with a request from the guest before and
//! after the real notification service is asked, and what is told to the
//! guest about events on the host.
//!
//! Nothing here talks to the service. A request is first turned into the
//! call to make, or refused; the caller makes the call; the outcome is then
//! turned into the reply for the guest. Every field that came from the
//! guest is validated or sanitized on the way, and host identifiers never
//! leave: the guest sees only the identifiers of the mapping.

use crate::capabilities::{advertised, Capabilities, Capability};
use crate::ids::{GuestId, HostId};
use crate::maps::{
    all_used,
    is_next_free,
    lemma_live_ids_nonzero,
    lemma_maps_are_inverse,
    successor,
    AllocateError,
    Maps,
};
use crate::message::{
    text_view,
    texts_view,
    ImageView,
    Notification,
    NotificationView,
    ReplyMessage,
    ReplyView,
};
use crate::sanitize::{decides, escape_markup, escaped, sanitize_str, sanitized, verdicts};
use crate::validate::{
    image_fault,
    is_valid_action_name,
    is_valid_category,
    is_valid_expire_timeout,
    serialize_image,
    valid_action_name,
    valid_category,
    valid_expire_timeout,
    ImageData,
    ImageError,
};
use vstd::prelude::*;
use vstd::string::StringExecFns;
use vstd::utf8::encode_utf8;

verus! {

/// Why a request is not forwarded to the real service.
#[derive(Clone, Copy, Debug, PartialEq, Eq, Structural)]
pub enum Rejection {
    /// The request replaces a notification that this guest does not own.
    UnknownReplacesId { id: u32 },
    /// The expiry is below -1.
    BadExpireTimeout,
    /// The actions do not come in pairs of key and label.
    OddActions,
    /// An action key is not a valid action name.
    InvalidActionName,
    /// The category is not a valid category.
    InvalidCategory,
    /// The image parameters do not describe an image within their data.
    Image(ImageError),
}

impl Rejection {
    /// The reason in words, as it is reported to the guest.
    pub open spec fn spec_reason(self) -> Seq<char> {
        match self {
            Rejection::UnknownReplacesId { .. } => "ID not found in guest-to-host lookup map"@,
            Rejection::BadExpireTimeout => "Invalid expire timeout"@,
            Rejection::OddActions => "Actions must have an even length"@,
            Rejection::InvalidActionName => "Invalid action name"@,
            Rejection::InvalidCategory => "Invalid category"@,
            Rejection::Image(e) => e.spec_message(),
        }
    }

    /// The reason in words, as it is reported to the guest.
    pub fn reason(&self) -> (r: &'static str)
        ensures
            r@ == self.spec_reason(),
    {
        match self {
            Rejection::UnknownReplacesId { .. } => "ID not found in guest-to-host lookup map",
            Rejection::BadExpireTimeout => "Invalid expire timeout",
            Rejection::OddActions => "Actions must have an even length",
            Rejection::InvalidActionName => "Invalid action name",
            Rejection::InvalidCategory => "Invalid category",
            Rejection::Image(e) => e.message(),
        }
    }
}

/// The hints that go with a call to the real service.
#[derive(Clone, Debug, PartialEq, Eq)]
pub struct Hints {
    /// The `urgency` byte.
    pub urgency: Option<u8>,
    pub resident: bool,
    pub suppress_sound: bool,
    pub transient: bool,
    pub category: Option<String>,
    /// The `image-data` hint.
    pub image: Option<ImageData>,
}

/// View of [`Hints`].
pub struct HintsView {
    pub urgency: Option<u8>,
    pub resident: bool,
    pub suppress_sound: bool,
    pub transient: bool,
    pub category: Option<Seq<char>>,
    pub image: Option<ImageView>,
}

impl View for Hints {
    type V = HintsView;

    open spec fn view(&self) -> HintsView {
        HintsView {
            urgency: self.urgency,
            resident: self.resident,
            suppress_sound: self.suppress_sound,
            transient: self.transient,
            category: text_view(self.category),
            image: match self.image {
                Some(i) => Some(i@),
                None => None,
            },
        }
    }
}

/// A call to make on the real service, with every argument fit to be
/// sent.
#[derive(Clone, Debug, PartialEq, Eq)]
pub struct NotifyRequest {
    pub application_name: String,
    /// Host identifier of the notification to replace; 0 for a new one.
    pub replaces_id: u32,
    pub icon: String,
    pub summary: String,
    pub body: String,
    pub actions: Vec<String>,
    pub hints: Hints,
    pub expire_timeout: i32,
    /// The guest identifier that stays with the notification, where one
    /// is replaced.
    pub guest_hint: Option<GuestId>,
}

/// View of [`NotifyRequest`].
pub struct RequestView {
    pub application_name: Seq<char>,
    pub replaces_id: u32,
    pub icon: Seq<char>,
    pub summary: Seq<char>,
    pub body: Seq<char>,
    pub actions: Seq<Seq<char>>,
    pub hints: HintsView,
    pub expire_timeout: i32,
    pub guest_hint: Option<u32>,
}

impl View for NotifyRequest {
    type V = RequestView;

    open spec fn view(&self) -> RequestView {
        RequestView {
            application_name: self.application_name@,
            replaces_id: self.replaces_id,
            icon: self.icon@,
            summary: self.summary@,
            body: self.body@,
            actions: texts_view(self.actions@),
            hints: self.hints@,
            expire_timeout: self.expire_timeout,
            guest_hint: match self.guest_hint {
                Some(g) => Some(g@),
                None => None,
            },
        }
    }
}

/// What came of a call to the real service.
#[derive(Clone, Debug, PartialEq, Eq)]
pub enum NotifyOutcome {
    /// The service showed the notification under this identifier.
    Id(u32),
    /// The service answered with an error of its own.
    MethodError { name: String, message: Option<String> },
    /// The call failed in some other way.
    Failed,
}

/// Why an outcome could not be turned into a reply. Each of these means
/// that the service broke its protocol.
#[derive(Clone, Copy, Debug, PartialEq, Eq, Structural)]
pub enum OutcomeError {
    /// The service gave the identifier zero.
    ZeroId,
    /// The identifier could not be entered in the mapping.
    Mapping(AllocateError),
}

/// The name of the error that a refused request is answered with.
pub open spec fn invalid_args() -> Seq<char> {
    "org.freedesktop.DBus.Error.InvalidArgs"@
}

/// Every key of `actions`, which stand at the even positions counted from
/// zero, is a valid action name.
pub open spec fn keys_valid(actions: Seq<Seq<char>>) -> bool {
    forall|i: int|
        0 <= i < actions.len() && i % 2 == 0 ==> valid_action_name(
            encode_utf8(#[trigger] actions[i]),
        )
}

/// The actions as they are forwarded: keys as they are, labels sanitized.
pub open spec fn forwarded_actions(
    actions: Seq<Seq<char>>,
    safe: spec_fn(char) -> bool,
) -> Seq<Seq<char>> {
    Seq::new(
        actions.len(),
        |i: int|
            if i % 2 == 0 {
                actions[i]
            } else {
                sanitized(actions[i], safe)
            },
    )
}

/// The state of the host half.
pub struct NotificationEmitter {
    capabilities: Capabilities,
    prefix: String,
    application_name: String,
    icon: String,
    maps: Maps,
}

/// View of [`NotificationEmitter`].
pub struct EmitterView {
    pub capabilities: Set<Capability>,
    pub prefix: Seq<char>,
    pub application_name: Seq<char>,
    pub icon: Seq<char>,
    pub guest_to_host: Map<u32, u32>,
    pub host_to_guest: Map<u32, u32>,
    pub last_id: u32,
}

impl View for NotificationEmitter {
    type V = EmitterView;

    closed spec fn view(&self) -> EmitterView {
        EmitterView {
            capabilities: self.capabilities@,
            prefix: self.prefix@,
            application_name: self.application_name@,
            icon: self.icon@,
            guest_to_host: self.maps.guest_to_host(),
            host_to_guest: self.maps.host_to_guest(),
            last_id: self.maps.last_id(),
        }
    }
}

impl EmitterView {
    /// Why the request is refused, if it is: the first of the checks, in
    /// this order, that it fails.
    pub open spec fn rejection(self, n: NotificationView) -> Option<Rejection> {
        match n {
            NotificationView::V1 {
                replaces_id,
                actions,
                category,
                expire_timeout,
                image,
                ..
            } => {
                if replaces_id != 0 && !self.guest_to_host.contains_key(replaces_id) {
                    Some(Rejection::UnknownReplacesId { id: replaces_id })
                } else if !valid_expire_timeout(expire_timeout) {
                    Some(Rejection::BadExpireTimeout)
                } else if actions.len() % 2 != 0 {
                    Some(Rejection::OddActions)
                } else if !keys_valid(actions) {
                    Some(Rejection::InvalidActionName)
                } else if category is Some && !valid_category(encode_utf8(category->0)) {
                    Some(Rejection::InvalidCategory)
                } else if image is Some && image_fault(image->0) is Some {
                    Some(Rejection::Image(image_fault(image->0)->0))
                } else {
                    None
                }
            },
        }
    }

    /// The call that a request which is not refused leads to.
    pub open spec fn request(
        self,
        n: NotificationView,
        safe: spec_fn(char) -> bool,
    ) -> RequestView {
        match n {
            NotificationView::V1 {
                suppress_sound,
                transient,
                resident,
                urgency,
                replaces_id,
                summary,
                body,
                actions,
                category,
                expire_timeout,
                image,
            } => RequestView {
                application_name: self.application_name,
                replaces_id: if replaces_id == 0 {
                    0
                } else {
                    self.guest_to_host[replaces_id]
                },
                icon: self.icon,
                summary: self.prefix + sanitized(summary, safe),
                body: if self.capabilities.contains(Capability::BodyMarkup) {
                    escaped(sanitized(body, safe))
                } else {
                    sanitized(body, safe)
                },
                actions: if self.capabilities.contains(Capability::Actions) {
                    forwarded_actions(actions, safe)
                } else {
                    Seq::empty()
                },
                hints: HintsView {
                    urgency: match urgency {
                        Some(u) => Some(u.level()),
                        None => None,
                    },
                    resident: resident && self.capabilities.contains(Capability::Persistence),
                    suppress_sound: suppress_sound && self.capabilities.contains(
                        Capability::Sound,
                    ),
                    transient: transient && self.capabilities.contains(Capability::Persistence),
                    category,
                    image,
                },
                expire_timeout,
                guest_hint: if replaces_id == 0 {
                    None
                } else {
                    Some(replaces_id)
                },
            },
        }
    }
}

impl EmitterView {
    /// What the guest is told for the host identifier `id`: zero for zero,
    /// the paired guest identifier for a notification of this guest, and
    /// nothing for any other.
    pub open spec fn translated(self, id: u32) -> Option<u32> {
        if id == 0 {
            Some(0u32)
        } else if self.host_to_guest.contains_key(id) {
            Some(self.host_to_guest[id])
        } else {
            None
        }
    }

    /// This state with the notification that the host knows as `id`
    /// forgotten.
    pub open spec fn without_host(self, id: u32) -> EmitterView {
        if id != 0 && self.host_to_guest.contains_key(id) {
            EmitterView {
                guest_to_host: self.guest_to_host.remove(self.host_to_guest[id]),
                host_to_guest: self.host_to_guest.remove(id),
                ..self
            }
        } else {
            self
        }
    }

    /// The identifier `host` of the service can be entered in the mapping:
    /// it is not zero and, under the guest identifier `hint`, the pair is
    /// there already or neither of the two is live; without a hint, `host`
    /// is not live and a guest identifier is left.
    pub open spec fn accepts(self, host: u32, hint: Option<u32>) -> bool {
        &&& host != 0
        &&& match hint {
            Some(g) => (self.guest_to_host.contains_key(g) && self.guest_to_host[g] == host) || (
            !self.guest_to_host.contains_key(g) && !self.host_to_guest.contains_key(host)),
            None => !self.host_to_guest.contains_key(host) && !all_used(
                self.guest_to_host.dom(),
            ),
        }
    }

    /// This state with every notification forgotten.
    pub open spec fn cleared(self) -> EmitterView {
        EmitterView { guest_to_host: Map::empty(), host_to_guest: Map::empty(), ..self }
    }
}

impl NotificationEmitter {
    /// The mapping is well-formed: its two directions are inverses and
    /// hold no zero.
    pub closed spec fn wf(&self) -> bool {
        self.maps.wf()
    }

    /// An emitter for a service that advertises `capability_names`, which
    /// shows `application_name` and `icon` for every notification and
    /// puts `prefix` before every summary.
    pub fn new(
        prefix: String,
        application_name: String,
        icon: String,
        capability_names: &Vec<String>,
    ) -> (e: Self)
        ensures
            e.wf(),
            e@.capabilities == advertised(capability_names@),
            e@.prefix == prefix@,
            e@.application_name == application_name@,
            e@.icon == icon@,
            e@.guest_to_host == Map::<u32, u32>::empty(),
            e@.host_to_guest == Map::<u32, u32>::empty(),
            e@.last_id == 1,
    {
        NotificationEmitter {
            capabilities: Capabilities::from_names(capability_names),
            prefix,
            application_name,
            icon,
            maps: Maps::new(),
        }
    }

    /// An emitter for the guest called `guest_name`: summaries begin with
    /// the name and a colon, and the application is shown as `Qube: ` and
    /// the name.
    pub fn for_guest(guest_name: &str, icon: String, capability_names: &Vec<String>) -> (e: Self)
        ensures
            e.wf(),
            e@.capabilities == advertised(capability_names@),
            e@.prefix == guest_name@ + ": "@,
            e@.application_name == "Qube: "@ + guest_name@,
            e@.icon == icon@,
            e@.guest_to_host == Map::<u32, u32>::empty(),
            e@.host_to_guest == Map::<u32, u32>::empty(),
            e@.last_id == 1,
    {
        let prefix = String::from_str(guest_name).concat(": ");
        let application_name = String::from_str("Qube: ").concat(guest_name);
        NotificationEmitter::new(prefix, application_name, icon, capability_names)
    }

    /// What the service can do.
    pub fn capabilities(&self) -> (c: Capabilities)
        ensures
            c@ == self@.capabilities,
    {
        self.capabilities
    }

    /// Whether the server supports persistence
    pub fn persistence(&self) -> (b: bool)
        ensures
            b == self@.capabilities.contains(Capability::Persistence),
    {
        self.capabilities.contains(Capability::Persistence)
    }

    /// Whether the server supports sound
    pub fn sound(&self) -> (b: bool)
        ensures
            b == self@.capabilities.contains(Capability::Sound),
    {
        self.capabilities.contains(Capability::Sound)
    }

    /// Whether the server supports actions
    pub fn actions(&self) -> (b: bool)
        ensures
            b == self@.capabilities.contains(Capability::Actions),
    {
        self.capabilities.contains(Capability::Actions)
    }

    /// Whether the server supports body markup
    pub fn body_markup(&self) -> (b: bool)
        ensures
            b == self@.capabilities.contains(Capability::BodyMarkup),
    {
        self.capabilities.contains(Capability::BodyMarkup)
    }

    /// Whether the server supports notification bodies
    pub fn body(&self) -> (b: bool)
        ensures
            b == self@.capabilities.contains(Capability::Body),
    {
        self.capabilities.contains(Capability::Body)
    }

    /// The guest identifier to report for the host identifier `id`, without
    /// forgetting anything.
    pub fn translate_host_id(&self, id: u32) -> (r: Option<u32>)
        requires
            self.wf(),
        ensures
            r == self@.translated(id),
    {
        match HostId::new_less_safe(id) {
            None => Some(0),
            Some(a) => match self.maps.lookup_host_id(a) {
                None => None,
                Some(guest) => Some(guest.get()),
            },
        }
    }

    /// Forgets every notification.
    pub fn clear(&mut self)
        requires
            old(self).wf(),
        ensures
            final(self).wf(),
            final(self)@ == old(self)@.cleared(),
    {
        self.maps.clear()
    }

    /// The guest identifier to report for the host identifier `id`; the
    /// notification is forgotten, in both directions at once.
    pub fn remove_host_id(&mut self, id: u32) -> (r: Option<u32>)
        requires
            old(self).wf(),
        ensures
            final(self).wf(),
            r == old(self)@.translated(id),
            final(self)@ == old(self)@.without_host(id),
    {
        match HostId::new_less_safe(id) {
            None => Some(0),
            Some(a) => match self.maps.remove_host_id(a) {
                None => None,
                Some(guest) => Some(guest.get()),
            },
        }
    }
}

/// Checks the keys of `actions` and sanitizes its labels.
fn forward_actions<F: Fn(char) -> bool>(actions: &Vec<String>, safe: &F) -> (r: Option<
    Vec<String>,
>)
    requires
        decides(safe),
    ensures
        r is Some <==> keys_valid(texts_view(actions@)),
        r matches Some(out) ==> texts_view(out@) == forwarded_actions(
            texts_view(actions@),
            verdicts(safe),
        ),
{
    let ghost all = texts_view(actions@);
    let ghost wanted = forwarded_actions(all, verdicts(safe));
    let mut out: Vec<String> = Vec::new();
    let mut i: usize = 0;
    proof {
        assert(texts_view(out@) =~= wanted.take(0));
    }
    while i < actions.len()
        invariant
            decides(safe),
            i <= actions.len(),
            all == texts_view(actions@),
            wanted == forwarded_actions(all, verdicts(safe)),
            texts_view(out@) == wanted.take(i as int),
            forall|j: int|
                0 <= j < i && j % 2 == 0 ==> valid_action_name(encode_utf8(#[trigger] all[j])),
        decreases actions.len() - i,
    {
        let ghost before = texts_view(out@);
        if i % 2 == 0 {
            if !is_valid_action_name(actions[i].as_str().as_bytes()) {
                proof {
                    assert(!valid_action_name(encode_utf8(all[i as int])));
                }
                return None;
            }
            out.push(actions[i].clone());
        } else {
            out.push(sanitize_str(actions[i].as_str(), safe));
        }
        proof {
            assert(texts_view(out@) =~= before.push(wanted[i as int]));
            assert(wanted.take(i + 1) =~= wanted.take(i as int).push(wanted[i as int]));
        }
        i += 1;
    }
    proof {
        assert(wanted.take(i as int) =~= wanted);
    }
    Some(out)
}

impl NotificationEmitter {
    /// Turns a request of the guest into the call to make on the real
    /// service, or refuses it.
    ///
    /// A request is refused where it replaces a notification that the
    /// guest does not own, where its expiry is below -1, where its actions
    /// do not come in pairs, where a key is no valid action name (whether
    /// or not the service supports actions), where its category is no
    /// valid category, and where its image parameters are refused; the
    /// first of these, in this order, is the one reported. Otherwise the
    /// application name and icon are those of this emitter whatever the
    /// guest sent, the summary is sanitized and prefixed, the body is
    /// sanitized and, for a service that renders markup, escaped; labels of
    /// actions are sanitized, and what the service does not support is left
    /// out.
    pub fn prepare<F: Fn(char) -> bool>(&self, notification: Notification, safe: &F) -> (r: Result<
        NotifyRequest,
        Rejection,
    >)
        requires
            self.wf(),
            decides(safe),
        ensures
            match r {
                Ok(request) => self@.rejection(notification@) is None && request@
                    == self@.request(notification@, verdicts(safe)),
                Err(e) => self@.rejection(notification@) == Some(e),
            },
    {
        let ghost wanted = self@.request(notification@, verdicts(safe));
        match notification {
            Notification::V1 {
                suppress_sound,
                transient,
                resident,
                urgency,
                replaces_id,
                summary,
                body,
                actions,
                category,
                expire_timeout,
                image,
            } => {
                let guest_hint = GuestId::new_less_safe(replaces_id);
                let host_id: u32 = match guest_hint {
                    None => 0,
                    Some(id) => match self.maps.lookup_guest_id(id) {
                        None => {
                            return Err(Rejection::UnknownReplacesId { id: replaces_id });
                        },
                        Some(host) => host.get(),
                    },
                };
                if !is_valid_expire_timeout(expire_timeout) {
                    return Err(Rejection::BadExpireTimeout);
                }
                if actions.len() % 2 != 0 {
                    return Err(Rejection::OddActions);
                }
                let checked = match forward_actions(&actions, safe) {
                    Some(out) => out,
                    None => {
                        return Err(Rejection::InvalidActionName);
                    },
                };
                let forwarded = if self.actions() {
                    checked
                } else {
                    Vec::new()
                };
                if let Some(c) = &category {
                    if !is_valid_category(c.as_str().as_bytes()) {
                        return Err(Rejection::InvalidCategory);
                    }
                }
                let image_data = match image {
                    None => None,
                    Some(parameters) => match serialize_image(parameters) {
                        Ok(data) => Some(data),
                        Err(e) => {
                            return Err(Rejection::Image(e));
                        },
                    },
                };
                let clean_body = sanitize_str(body.as_str(), safe);
                let shown_body = if self.body_markup() {
                    escape_markup(clean_body.as_str())
                } else {
                    clean_body
                };
                let clean_summary = sanitize_str(summary.as_str(), safe);
                let shown_summary = self.prefix.clone().concat(clean_summary.as_str());
                let hints = Hints {
                    urgency: match urgency {
                        Some(u) => Some(u.to_byte()),
                        None => None,
                    },
                    resident: resident && self.persistence(),
                    suppress_sound: suppress_sound && self.sound(),
                    transient: transient && self.persistence(),
                    category,
                    image: image_data,
                };
                let request = NotifyRequest {
                    application_name: self.application_name.clone(),
                    replaces_id: host_id,
                    icon: self.icon.clone(),
                    summary: shown_summary,
                    body: shown_body,
                    actions: forwarded,
                    hints,
                    expire_timeout,
                    guest_hint,
                };
                proof {
                    assert(request@.actions =~= wanted.actions);
                    assert(request@.hints == wanted.hints);
                    assert(request@.summary == wanted.summary);
                    assert(request@.body == wanted.body);
                    assert(request@.guest_hint == wanted.guest_hint);
                    assert(request@.replaces_id == wanted.replaces_id);
                }
                Ok(request)
            },
        }
    }

    /// The reply for a request that was refused: an error of the class of
    /// invalid arguments, with the reason in words.
    pub fn refuse(rejection: Rejection, sequence: u64) -> (reply: ReplyMessage)
        ensures
            reply@ == (ReplyView::DBusError {
                name: invalid_args(),
                message: Some(rejection.spec_reason()),
                sequence,
            }),
    {
        ReplyMessage::DBusError {
            name: String::from_str("org.freedesktop.DBus.Error.InvalidArgs"),
            message: Some(String::from_str(rejection.reason())),
            sequence,
        }
    }

    /// The reply for a request whose call has been made.
    ///
    /// An identifier from the service is entered in the mapping, under
    /// `guest_hint` where the request replaced a notification and under a
    /// fresh guest identifier otherwise, and the guest identifier is
    /// reported. An error of the service is passed on; any other failure is
    /// reported as unknown. Every reply carries `sequence`.
    pub fn complete(
        &mut self,
        outcome: NotifyOutcome,
        guest_hint: Option<GuestId>,
        sequence: u64,
    ) -> (r: Result<ReplyMessage, OutcomeError>)
        requires
            old(self).wf(),
        ensures
            final(self).wf(),
            final(self)@.capabilities == old(self)@.capabilities,
            final(self)@.prefix == old(self)@.prefix,
            final(self)@.application_name == old(self)@.application_name,
            final(self)@.icon == old(self)@.icon,
            outcome matches NotifyOutcome::Id(host) ==> (r is Ok <==> old(self)@.accepts(
                host,
                match guest_hint {
                    Some(g) => Some(g@),
                    None => None,
                },
            )),
            match outcome {
                NotifyOutcome::Id(host) => match r {
                    Ok(reply) => {
                        &&& host != 0
                        &&& reply@ matches ReplyView::Id { id, sequence: s }
                        &&& s == sequence
                        &&& id != 0
                        &&& guest_hint matches Some(hint) ==> id == hint@
                        &&& guest_hint is None ==> !old(self)@.guest_to_host.contains_key(id)
                            && is_next_free(
                            old(self)@.last_id,
                            old(self)@.guest_to_host.dom(),
                            id,
                        )
                        &&& final(self)@.last_id == if guest_hint is Some {
                            old(self)@.last_id
                        } else {
                            successor(id)
                        }
                        &&& final(self)@.guest_to_host == old(self)@.guest_to_host.insert(id, host)
                        &&& final(self)@.host_to_guest == old(self)@.host_to_guest.insert(host, id)
                    },
                    Err(e) => {
                        &&& final(self)@ == old(self)@
                        &&& e == if host == 0 {
                            OutcomeError::ZeroId
                        } else if guest_hint is Some || old(self)@.host_to_guest.contains_key(
                            host,
                        ) {
                            OutcomeError::Mapping(AllocateError::InUse)
                        } else {
                            OutcomeError::Mapping(AllocateError::Exhausted)
                        }
                    },
                },
                NotifyOutcome::MethodError { name, message } => {
                    &&& final(self)@ == old(self)@
                    &&& r matches Ok(reply)
                    &&& reply@ == (ReplyView::DBusError {
                        name: name@,
                        message: text_view(message),
                        sequence,
                    })
                },
                NotifyOutcome::Failed => {
                    &&& final(self)@ == old(self)@
                    &&& r matches Ok(reply)
                    &&& reply@ == (ReplyView::UnknownError { sequence })
                },
            },
    {
        match outcome {
            NotifyOutcome::Id(host) => {
                let host_id = match HostId::new_less_safe(host) {
                    Some(h) => h,
                    None => {
                        return Err(OutcomeError::ZeroId);
                    },
                };
                match self.maps.next_id(host_id, guest_hint) {
                    Ok(guest) => Ok(ReplyMessage::Id { id: guest.get(), sequence }),
                    Err(e) => Err(OutcomeError::Mapping(e)),
                }
            },
            NotifyOutcome::MethodError { name, message } => Ok(
                ReplyMessage::DBusError { name, message, sequence },
            ),
            NotifyOutcome::Failed => Ok(ReplyMessage::UnknownError { sequence }),
        }
    }

    /// What to tell the guest when the service says that the notification
    /// `host_id` was closed for `reason`: that its own notification was
    /// dismissed, if it was one of this guest's, which is then forgotten.
    pub fn on_closed(&mut self, host_id: u32, reason: u32) -> (r: Option<ReplyMessage>)
        requires
            old(self).wf(),
        ensures
            final(self).wf(),
            final(self)@ == old(self)@.without_host(host_id),
            match old(self)@.translated(host_id) {
                Some(id) => r matches Some(reply) && reply@ == (ReplyView::Dismissed {
                    id,
                    reason,
                }),
                None => r is None,
            },
    {
        match self.remove_host_id(host_id) {
            Some(id) => Some(ReplyMessage::Dismissed { id, reason }),
            None => None,
        }
    }

    /// What to tell the guest when the service says that the action `key`
    /// was invoked on the notification `host_id`: the same of its own
    /// notification, if it was one of this guest's. Nothing is forgotten.
    pub fn on_action_invoked(&self, host_id: u32, key: String) -> (r: Option<ReplyMessage>)
        requires
            self.wf(),
        ensures
            match self@.translated(host_id) {
                Some(id) => r matches Some(reply) && reply@ == (ReplyView::ActionInvoked {
                    id,
                    action: key@,
                }),
                None => r is None,
            },
    {
        match self.translate_host_id(host_id) {
            Some(id) => Some(ReplyMessage::ActionInvoked { id, action: key }),
            None => None,
        }
    }

    /// What to tell the guest when the real service changed hands: that
    /// the server restarted. Every notification is forgotten, as the
    /// identifiers of the old service mean nothing to the new one.
    pub fn on_owner_changed(&mut self) -> (reply: ReplyMessage)
        requires
            old(self).wf(),
        ensures
            final(self).wf(),
            final(self)@ == old(self)@.cleared(),
            reply@ == ReplyView::ServerRestart,
    {
        self.clear();
        ReplyMessage::ServerRestart
    }
}

/// In a well-formed emitter the two directions of the mapping are
/// inverses: the guest identifier `g` stands for the host identifier `h`
/// exactly when `h` is known to the guest as `g`; and neither is zero.
pub proof fn lemma_mapping_is_inverse(e: &NotificationEmitter, g: u32, h: u32)
    requires
        e.wf(),
    ensures
        (e@.guest_to_host.contains_key(g) && e@.guest_to_host[g] == h) <==> (
        e@.host_to_guest.contains_key(h) && e@.host_to_guest[h] == g),
        e@.guest_to_host.contains_key(g) ==> g != 0 && e@.guest_to_host[g] != 0,
        e@.last_id != 0,
{
    lemma_maps_are_inverse(&e.maps, g, h);
    lemma_live_ids_nonzero(&e.maps, g, h);
}

} // verus!
