//! The guest half: what the local notification server does with a call of
//! an application and with a reply from the host.
//!
//! A call becomes a request with a fresh sequence number, and the number is
//! parked until the host answers. An answer is accepted only for a parked
//! number, which it releases; a parked number is released once.

use crate::capabilities::same_text;
use crate::codec::ser_message;
use crate::emitter::{invalid_args, keys_valid};
use crate::message::{
    image_view,
    text_view,
    texts_view,
    ImageParameters,
    ImageView,
    Message,
    MessageView,
    Notification,
    NotificationView,
    ReplyMessage,
    ReplyView,
    Urgency,
};
use crate::validate::{action_name_fault, check_action_name, valid_action_name, ActionNameFault};
use std::collections::HashSet;
use vstd::prelude::*;
use vstd::string::StringExecFns;
use vstd::utf8::encode_utf8;

verus! {

/// The value of a hint, as far as the server looks at it.
#[derive(Clone, Debug, PartialEq, Eq)]
pub enum HintValue {
    /// A byte.
    Byte(u8),
    /// A string.
    Text(String),
    /// The seven fields of an image.
    Image(ImageParameters),
    /// Anything else.
    Other,
}

/// View of [`HintValue`].
pub enum HintValueView {
    Byte(u8),
    Text(Seq<char>),
    Image(ImageView),
    Other,
}

impl View for HintValue {
    type V = HintValueView;

    open spec fn view(&self) -> HintValueView {
        match *self {
            HintValue::Byte(b) => HintValueView::Byte(b),
            HintValue::Text(t) => HintValueView::Text(t@),
            HintValue::Image(i) => HintValueView::Image(i@),
            HintValue::Other => HintValueView::Other,
        }
    }
}

/// What the recognized hints of a call say.
#[derive(Clone, Debug, PartialEq, Eq)]
pub struct ParsedHints {
    pub suppress_sound: bool,
    pub transient: bool,
    pub resident: bool,
    pub urgency: Option<Urgency>,
    pub category: Option<String>,
    pub image: Option<ImageParameters>,
}

/// View of [`ParsedHints`].
pub struct ParsedHintsView {
    pub suppress_sound: bool,
    pub transient: bool,
    pub resident: bool,
    pub urgency: Option<Urgency>,
    pub category: Option<Seq<char>>,
    pub image: Option<ImageView>,
}

impl View for ParsedHints {
    type V = ParsedHintsView;

    open spec fn view(&self) -> ParsedHintsView {
        ParsedHintsView {
            suppress_sound: self.suppress_sound,
            transient: self.transient,
            resident: self.resident,
            urgency: self.urgency,
            category: text_view(self.category),
            image: image_view(self.image),
        }
    }
}

/// A hint whose value has the wrong type.
#[derive(Clone, Copy, Debug, PartialEq, Eq, Structural)]
pub enum HintError {
    /// `category` is no string.
    Category,
    /// `image-data` is no image.
    ImageData,
}

/// No hint seen yet.
pub open spec fn no_hints() -> ParsedHintsView {
    ParsedHintsView {
        suppress_sound: false,
        transient: false,
        resident: false,
        urgency: None,
        category: None,
        image: None,
    }
}

/// What one more hint makes of what the hints before it said.
///
/// `urgency` counts where it is one of the bytes 0, 1 and 2;
/// `suppress-sound`, `transient` and `resident` count whatever their
/// value; `category` must be a string and `image-data` an image; every
/// other hint is passed over.
pub open spec fn with_hint(
    so_far: ParsedHintsView,
    name: Seq<char>,
    value: HintValueView,
) -> Result<ParsedHintsView, HintError> {
    if name == "category"@ {
        match value {
            HintValueView::Text(t) => Ok(ParsedHintsView { category: Some(t), ..so_far }),
            _ => Err(HintError::Category),
        }
    } else if name == "image-data"@ {
        match value {
            HintValueView::Image(i) => Ok(ParsedHintsView { image: Some(i), ..so_far }),
            _ => Err(HintError::ImageData),
        }
    } else if name == "suppress-sound"@ {
        Ok(ParsedHintsView { suppress_sound: true, ..so_far })
    } else if name == "transient"@ {
        Ok(ParsedHintsView { transient: true, ..so_far })
    } else if name == "resident"@ {
        Ok(ParsedHintsView { resident: true, ..so_far })
    } else if name == "urgency"@ {
        match value {
            HintValueView::Byte(b) => if b == 0 {
                Ok(ParsedHintsView { urgency: Some(Urgency::Low), ..so_far })
            } else if b == 1 {
                Ok(ParsedHintsView { urgency: Some(Urgency::Normal), ..so_far })
            } else if b == 2 {
                Ok(ParsedHintsView { urgency: Some(Urgency::Critical), ..so_far })
            } else {
                Ok(so_far)
            },
            _ => Ok(so_far),
        }
    } else {
        Ok(so_far)
    }
}

/// What the hints say, taken in order; the first hint of the wrong type
/// ends it.
pub open spec fn parsed_hints(hints: Seq<(Seq<char>, HintValueView)>) -> Result<
    ParsedHintsView,
    HintError,
>
    decreases hints.len(),
{
    if hints.len() == 0 {
        Ok(no_hints())
    } else {
        match parsed_hints(hints.drop_last()) {
            Ok(so_far) => with_hint(so_far, hints.last().0, hints.last().1),
            Err(e) => Err(e),
        }
    }
}

/// The views of hints, in order.
pub open spec fn hints_view(hints: Seq<(String, HintValue)>) -> Seq<(Seq<char>, HintValueView)> {
    hints.map_values(|h: (String, HintValue)| (h.0@, h.1@))
}

/// Reads one hint into what the hints before it said.
pub fn apply_hint(so_far: ParsedHints, name: &str, value: HintValue) -> (r: Result<
    ParsedHints,
    HintError,
>)
    ensures
        match (r, with_hint(so_far@, name@, value@)) {
            (Ok(p), Ok(q)) => p@ == q,
            (Err(e), Err(f)) => e == f,
            _ => false,
        },
{
    let mut parsed = so_far;
    if same_text(name, "category") {
        match value {
            HintValue::Text(t) => {
                parsed.category = Some(t);
                Ok(parsed)
            },
            _ => Err(HintError::Category),
        }
    } else if same_text(name, "image-data") {
        match value {
            HintValue::Image(i) => {
                parsed.image = Some(i);
                Ok(parsed)
            },
            _ => Err(HintError::ImageData),
        }
    } else if same_text(name, "suppress-sound") {
        parsed.suppress_sound = true;
        Ok(parsed)
    } else if same_text(name, "transient") {
        parsed.transient = true;
        Ok(parsed)
    } else if same_text(name, "resident") {
        parsed.resident = true;
        Ok(parsed)
    } else if same_text(name, "urgency") {
        match value {
            HintValue::Byte(b) => {
                match Urgency::from_byte(b) {
                    Some(u) => {
                        parsed.urgency = Some(u);
                    },
                    None => {},
                }
                Ok(parsed)
            },
            _ => Ok(parsed),
        }
    } else {
        Ok(parsed)
    }
}

/// Reads the hints of a call.
pub fn parse_hints(hints: Vec<(String, HintValue)>) -> (r: Result<ParsedHints, HintError>)
    ensures
        match (r, parsed_hints(hints_view(hints@))) {
            (Ok(p), Ok(q)) => p@ == q,
            (Err(e), Err(f)) => e == f,
            _ => false,
        },
{
    let ghost items = hints@;
    let ghost all = hints_view(items);
    let mut parsed = ParsedHints {
        suppress_sound: false,
        transient: false,
        resident: false,
        urgency: None,
        category: None,
        image: None,
    };
    proof {
        assert(all.take(0) =~= Seq::<(Seq<char>, HintValueView)>::empty());
    }
    for hint in it: hints.into_iter()
        invariant
            it.seq() == items,
            all == hints_view(items),
            parsed_hints(all.take(it.index() as int)) == Ok::<ParsedHintsView, HintError>(
                parsed@,
            ),
    {
        let ghost k = it.index() as int;
        let (name, value) = hint;
        proof {
            assert(all.take(k + 1).drop_last() =~= all.take(k));
            assert(all.take(k + 1).last() == (name@, value@));
        }
        match apply_hint(parsed, name.as_str(), value) {
            Ok(p) => {
                parsed = p;
            },
            Err(e) => {
                proof {
                    lemma_hint_error_stays(all, k + 1);
                }
                return Err(e);
            },
        }
    }
    proof {
        assert(all.take(all.len() as int) =~= all);
    }
    Ok(parsed)
}

/// Once a prefix of the hints is refused, so is the whole of them, for the
/// same reason.
pub proof fn lemma_hint_error_stays(hints: Seq<(Seq<char>, HintValueView)>, n: int)
    requires
        0 <= n <= hints.len(),
        parsed_hints(hints.take(n)) is Err,
    ensures
        parsed_hints(hints) == parsed_hints(hints.take(n)),
    decreases hints.len() - n,
{
    if n == hints.len() {
        assert(hints.take(n) =~= hints);
    } else {
        assert(hints.take(n + 1).drop_last() =~= hints.take(n));
        lemma_hint_error_stays(hints, n + 1);
    }
}

/// The hints as a table from name to value. Where a name stands twice,
/// the later value is the one in the table.
pub open spec fn hint_table(hints: Seq<(Seq<char>, HintValueView)>) -> Map<
    Seq<char>,
    HintValueView,
>
    decreases hints.len(),
{
    if hints.len() == 0 {
        Map::empty()
    } else {
        hint_table(hints.drop_last()).insert(hints.last().0, hints.last().1)
    }
}

/// No name stands twice in `hints`.
pub open spec fn distinct_names(hints: Seq<(Seq<char>, HintValueView)>) -> bool {
    forall|i: int, j: int| 0 <= i < j < hints.len() ==> hints[i].0 != hints[j].0
}

/// No hint of the table has the wrong type: `category`, where it is there,
/// is a string, and `image-data` an image.
pub open spec fn table_well_typed(table: Map<Seq<char>, HintValueView>) -> bool {
    &&& table.contains_key("category"@) ==> table["category"@] is Text
    &&& table.contains_key("image-data"@) ==> table["image-data"@] is Image
}

/// The urgency that a hint value stands for.
pub open spec fn urgency_of(value: HintValueView) -> Option<Urgency> {
    match value {
        HintValueView::Byte(b) => if b == 0 {
            Some(Urgency::Low)
        } else if b == 1 {
            Some(Urgency::Normal)
        } else if b == 2 {
            Some(Urgency::Critical)
        } else {
            None
        },
        _ => None,
    }
}

/// What a table of hints says, each hint taken by itself.
pub open spec fn table_says(table: Map<Seq<char>, HintValueView>) -> ParsedHintsView {
    ParsedHintsView {
        suppress_sound: table.contains_key("suppress-sound"@),
        transient: table.contains_key("transient"@),
        resident: table.contains_key("resident"@),
        urgency: if table.contains_key("urgency"@) {
            urgency_of(table["urgency"@])
        } else {
            None
        },
        category: if table.contains_key("category"@) {
            match table["category"@] {
                HintValueView::Text(t) => Some(t),
                _ => None,
            }
        } else {
            None
        },
        image: if table.contains_key("image-data"@) {
            match table["image-data"@] {
                HintValueView::Image(i) => Some(i),
                _ => None,
            }
        } else {
            None
        },
    }
}

/// Where no name stands twice, what the hints say depends on the table of
/// them alone: they are accepted exactly when no hint of the table has the
/// wrong type, and then say what the table says. Every name of the table
/// is the name of a hint.
pub proof fn lemma_parsed_hints_of_table(hints: Seq<(Seq<char>, HintValueView)>)
    requires
        distinct_names(hints),
    ensures
        parsed_hints(hints) is Ok <==> table_well_typed(hint_table(hints)),
        parsed_hints(hints) matches Ok(parsed) ==> parsed == table_says(hint_table(hints)),
        forall|name: Seq<char>| #[trigger]
            hint_table(hints).contains_key(name) ==> exists|i: int|
                0 <= i < hints.len() && hints[i].0 == name,
    decreases hints.len(),
{
    reveal_strlit("category");
    reveal_strlit("image-data");
    reveal_strlit("suppress-sound");
    reveal_strlit("transient");
    reveal_strlit("resident");
    reveal_strlit("urgency");
    if hints.len() > 0 {
        let before = hints.drop_last();
        let name = hints.last().0;
        let value = hints.last().1;
        let table = hint_table(before);
        assert forall|i: int, j: int| 0 <= i < j < before.len() implies before[i].0
            != before[j].0 by {
            assert(before[i] == hints[i] && before[j] == hints[j]);
        }
        lemma_parsed_hints_of_table(before);
        if table.contains_key(name) {
            let i = choose|i: int| 0 <= i < before.len() && before[i].0 == name;
            assert(before[i] == hints[i]);
            assert(false);
        }
        assert forall|other: Seq<char>| #[trigger]
            hint_table(hints).contains_key(other) implies exists|i: int|
            0 <= i < hints.len() && hints[i].0 == other by {
            if other == name {
                assert(hints[hints.len() - 1].0 == other);
            } else {
                assert(table.contains_key(other));
                let i = choose|i: int| 0 <= i < before.len() && before[i].0 == other;
                assert(hints[i].0 == other);
            }
        }
        assert("category"@.len() == 8 && "image-data"@.len() == 10 && "suppress-sound"@.len() == 14);
        assert("transient"@.len() == 9 && "resident"@.len() == 8 && "urgency"@.len() == 7);
        assert("category"@[0] == 'c' && "resident"@[0] == 'r');
        assert("category"@ != "resident"@);
        let after = hint_table(hints);
        assert(after == table.insert(name, value));
        assert forall|other: Seq<char>| other != name implies after.contains_key(other)
            == table.contains_key(other) && after[other] == table[other] by {}
        assert(after.contains_key(name) && after[name] == value);
        match parsed_hints(before) {
            Ok(so_far) => {
                assert(so_far == table_says(table));
                if name == "urgency"@ {
                    assert(!table.contains_key("urgency"@));
                    assert(so_far.urgency is None);
                    assert(with_hint(so_far, name, value) is Ok);
                    assert(with_hint(so_far, name, value)->Ok_0.urgency == urgency_of(value));
                } else {
                    assert(after.contains_key("urgency"@) == table.contains_key("urgency"@));
                }
                match with_hint(so_far, name, value) {
                    Ok(parsed) => {
                        assert(parsed.category == table_says(after).category);
                        assert(parsed.image == table_says(after).image);
                        assert(parsed.urgency == table_says(after).urgency);
                    },
                    Err(_) => {},
                }
            },
            Err(_) => {},
        }
    }
}

/// The order of hints does not matter where no name stands twice: two
/// lists with the same table are accepted or refused together, and where
/// they are accepted they say the same.
pub proof fn lemma_hint_order_is_irrelevant(
    a: Seq<(Seq<char>, HintValueView)>,
    b: Seq<(Seq<char>, HintValueView)>,
)
    requires
        distinct_names(a),
        distinct_names(b),
        hint_table(a) == hint_table(b),
    ensures
        parsed_hints(a) is Ok <==> parsed_hints(b) is Ok,
        parsed_hints(a) is Ok ==> parsed_hints(a) == parsed_hints(b),
{
    lemma_parsed_hints_of_table(a);
    lemma_parsed_hints_of_table(b);
}

// ------------------------------------------------------------ the server
/// Why a call of an application is refused before anything is sent.
#[derive(Clone, Copy, Debug, PartialEq, Eq, Structural)]
pub enum NotifyFault {
    /// A hint has the wrong type.
    Hint(HintError),
    /// Every sequence number has been used.
    Exhausted,
    /// The actions do not come in pairs of key and label.
    OddActions,
    /// The action at `index` is a key and no valid action name; every key
    /// before it is valid.
    ActionName { index: usize, fault: ActionNameFault },
}

/// What a call came to.
#[derive(Clone, Debug, PartialEq, Eq)]
pub enum CallResult {
    /// The notification is shown; this is its identifier.
    Id(u32),
    /// The host answered with an error.
    Error { name: String, message: Option<String> },
    /// Something unknown went wrong on the host.
    Unknown,
}

/// View of [`CallResult`].
pub enum CallResultView {
    Id(u32),
    Error { name: Seq<char>, message: Option<Seq<char>> },
    Unknown,
}

impl View for CallResult {
    type V = CallResultView;

    open spec fn view(&self) -> CallResultView {
        match *self {
            CallResult::Id(id) => CallResultView::Id(id),
            CallResult::Error { name, message } => CallResultView::Error {
                name: name@,
                message: text_view(message),
            },
            CallResult::Unknown => CallResultView::Unknown,
        }
    }
}

/// What the server is to do about a reply from the host.
#[derive(Debug, PartialEq, Eq)]
pub enum GuestAction {
    /// Wake the call that waits under `sequence` with `result`.
    Complete { sequence: u64, result: CallResult },
    /// Emit the signal that a notification was closed.
    EmitClosed { id: u32, reason: u32 },
    /// Emit the signal that an action was invoked.
    EmitActionInvoked { id: u32, action: String },
    /// The real service restarted: fail the calls that wait under these
    /// numbers, and register the local server anew.
    Restart { failed: HashSet<u64> },
}

/// View of [`GuestAction`].
pub enum GuestActionView {
    Complete { sequence: u64, result: CallResultView },
    EmitClosed { id: u32, reason: u32 },
    EmitActionInvoked { id: u32, action: Seq<char> },
    Restart { failed: Set<u64> },
}

impl View for GuestAction {
    type V = GuestActionView;

    open spec fn view(&self) -> GuestActionView {
        match *self {
            GuestAction::Complete { sequence, result } => GuestActionView::Complete {
                sequence,
                result: result@,
            },
            GuestAction::EmitClosed { id, reason } => GuestActionView::EmitClosed { id, reason },
            GuestAction::EmitActionInvoked { id, action } => GuestActionView::EmitActionInvoked {
                id,
                action: action@,
            },
            GuestAction::Restart { failed } => GuestActionView::Restart { failed: failed@ },
        }
    }
}

/// The host answered a request that does not wait for an answer: it broke
/// the protocol.
#[derive(Clone, Copy, Debug, PartialEq, Eq, Structural)]
pub struct Unsolicited {
    pub sequence: u64,
}

/// The state of the guest half: the sequence counter and the parking
/// table.
pub struct Server {
    next_sequence: u64,
    pending: HashSet<u64>,
}

/// View of [`Server`].
pub struct ServerView {
    /// The number that the next request gets.
    pub next_sequence: u64,
    /// The numbers of the requests that wait for an answer.
    pub pending: Set<u64>,
}

impl View for Server {
    type V = ServerView;

    closed spec fn view(&self) -> ServerView {
        ServerView { next_sequence: self.next_sequence, pending: self.pending@ }
    }
}

/// The result that `reply` brings to the request that it answers.
pub open spec fn result_of(reply: ReplyView) -> CallResultView {
    match reply {
        ReplyView::Id { id, .. } => CallResultView::Id(id),
        ReplyView::DBusError { name, message, .. } => CallResultView::Error { name, message },
        _ => CallResultView::Unknown,
    }
}

impl Server {
    /// Every parked number was given out.
    pub closed spec fn wf(&self) -> bool {
        forall|x: u64| self.pending@.contains(x) ==> x < self.next_sequence
    }

    /// A server that has given out no number yet.
    pub fn new() -> (s: Self)
        ensures
            s.wf(),
            s@.next_sequence == 0,
            s@.pending == Set::<u64>::empty(),
    {
        Server { next_sequence: 0, pending: HashSet::new() }
    }

    /// The capabilities that the local server advertises, whatever the
    /// real service supports.
    pub fn get_capabilities() -> (names: Vec<String>)
        ensures
            names@.len() == 2,
            names@[0]@ == "persistence"@,
            names@[1]@ == "actions"@,
    {
        let mut names: Vec<String> = Vec::new();
        names.push(String::from_str("persistence"));
        names.push(String::from_str("actions"));
        names
    }

    /// Name, vendor, version and specification version of the local
    /// server.
    pub fn get_server_information() -> (info: (String, String, String, String))
        ensures
            info.0@ == "Qubes OS Notification Proxy"@,
            info.1@ == "Qubes OS"@,
            info.2@ == "0.0.1"@,
            info.3@ == "1.2"@,
    {
        (
            String::from_str("Qubes OS Notification Proxy"),
            String::from_str("Qubes OS"),
            String::from_str("0.0.1"),
            String::from_str("1.2"),
        )
    }

    /// Releases `sequence`, if it is parked.
    fn release(&mut self, sequence: u64) -> (was_parked: bool)
        requires
            old(self).wf(),
        ensures
            final(self).wf(),
            was_parked == old(self)@.pending.contains(sequence),
            final(self)@.next_sequence == old(self)@.next_sequence,
            final(self)@.pending == old(self)@.pending.remove(sequence),
    {
        self.pending.remove(&sequence)
    }
}

/// Looks for the first key of `actions` that is no valid action name.
fn check_keys(actions: &Vec<String>) -> (r: Result<(), (usize, ActionNameFault)>)
    ensures
        r is Ok <==> keys_valid(texts_view(actions@)),
        r matches Err((index, fault)) ==> {
            &&& index < actions@.len()
            &&& index % 2 == 0
            &&& action_name_fault(encode_utf8(actions@[index as int]@)) == Some(fault)
            &&& forall|j: int|
                0 <= j < index && j % 2 == 0 ==> valid_action_name(
                    encode_utf8(#[trigger] actions@[j]@),
                )
        },
{
    let ghost all = texts_view(actions@);
    let mut i: usize = 0;
    while i < actions.len()
        invariant
            i % 2 == 0,
            all == texts_view(actions@),
            forall|j: int|
                0 <= j < i && j < actions@.len() && j % 2 == 0 ==> valid_action_name(
                    encode_utf8(#[trigger] actions@[j]@),
                ),
        decreases actions.len() - i,
    {
        match check_action_name(actions[i].as_str().as_bytes()) {
            Ok(()) => {},
            Err(fault) => {
                proof {
                    assert(all[i as int] == actions@[i as int]@);
                    assert(!valid_action_name(encode_utf8(all[i as int])));
                }
                return Err((i, fault));
            },
        }
        if actions.len() - i < 2 {
            proof {
                assert forall|j: int| 0 <= j < all.len() && j % 2 == 0 implies valid_action_name(
                    encode_utf8(#[trigger] all[j]),
                ) by {
                    assert(all[j] == actions@[j]@);
                }
            }
            return Ok(());
        }
        i += 2;
    }
    proof {
        assert forall|j: int| 0 <= j < all.len() && j % 2 == 0 implies valid_action_name(
            encode_utf8(#[trigger] all[j]),
        ) by {
            assert(all[j] == actions@[j]@);
        }
    }
    Ok(())
}

/// The request for a call with these arguments and hints, under the
/// number `id`.
pub open spec fn request_for(
    id: u64,
    replaces_id: u32,
    summary: Seq<char>,
    body: Seq<char>,
    actions: Seq<Seq<char>>,
    hints: ParsedHintsView,
    expire_timeout: i32,
) -> MessageView {
    MessageView {
        id,
        notification: NotificationView::V1 {
            suppress_sound: hints.suppress_sound,
            transient: hints.transient,
            resident: hints.resident,
            urgency: hints.urgency,
            replaces_id,
            summary,
            body,
            actions,
            category: hints.category,
            expire_timeout,
            image: hints.image,
        },
    }
}

/// Equal calls have equal payloads whatever the order of their hints: where
/// no name stands twice and two lists of hints have the same table, the
/// requests made of them under one sequence number are written as the same
/// bytes.
pub proof fn lemma_payload_ignores_hint_order(
    id: u64,
    replaces_id: u32,
    summary: Seq<char>,
    body: Seq<char>,
    actions: Seq<Seq<char>>,
    a: Seq<(Seq<char>, HintValueView)>,
    b: Seq<(Seq<char>, HintValueView)>,
    expire_timeout: i32,
)
    requires
        distinct_names(a),
        distinct_names(b),
        hint_table(a) == hint_table(b),
        parsed_hints(a) is Ok,
    ensures
        parsed_hints(b) is Ok,
        ser_message(
            request_for(
                id,
                replaces_id,
                summary,
                body,
                actions,
                parsed_hints(a)->Ok_0,
                expire_timeout,
            ),
        ) == ser_message(
            request_for(
                id,
                replaces_id,
                summary,
                body,
                actions,
                parsed_hints(b)->Ok_0,
                expire_timeout,
            ),
        ),
{
    lemma_hint_order_is_irrelevant(a, b);
}

impl Server {
    /// Turns a call of an application into the request to send, and parks
    /// its sequence number.
    ///
    /// The hints are read first; a hint of the wrong type refuses the call
    /// and leaves the server as it was. After that the call has its number,
    /// also where it is then refused because its actions do not come in
    /// pairs or a key is no valid action name. Application name and icon of
    /// the caller are not part of the request.
    pub fn notify(
        &mut self,
        replaces_id: u32,
        summary: String,
        body: String,
        actions: Vec<String>,
        hints: Vec<(String, HintValue)>,
        expire_timeout: i32,
    ) -> (r: Result<Message, NotifyFault>)
        requires
            old(self).wf(),
        ensures
            final(self).wf(),
            match parsed_hints(hints_view(hints@)) {
                Err(e) => r == Err::<Message, NotifyFault>(NotifyFault::Hint(e)) && final(self)@
                    == old(self)@,
                Ok(parsed) => if old(self)@.next_sequence == u64::MAX {
                    r == Err::<Message, NotifyFault>(NotifyFault::Exhausted) && final(self)@
                        == old(self)@
                } else {
                    &&& final(self)@.next_sequence == old(self)@.next_sequence + 1
                    &&& if actions@.len() % 2 != 0 {
                        &&& r == Err::<Message, NotifyFault>(NotifyFault::OddActions)
                        &&& final(self)@.pending == old(self)@.pending
                    } else if !keys_valid(texts_view(actions@)) {
                        &&& r matches Err(NotifyFault::ActionName { index, fault })
                        &&& index < actions@.len()
                        &&& index % 2 == 0
                        &&& action_name_fault(encode_utf8(actions@[index as int]@)) == Some(fault)
                        &&& forall|j: int|
                            0 <= j < index && j % 2 == 0 ==> valid_action_name(
                                encode_utf8(#[trigger] actions@[j]@),
                            )
                        &&& final(self)@.pending == old(self)@.pending
                    } else {
                        &&& r matches Ok(m)
                        &&& m@ == request_for(
                            old(self)@.next_sequence,
                            replaces_id,
                            summary@,
                            body@,
                            texts_view(actions@),
                            parsed,
                            expire_timeout,
                        )
                        &&& final(self)@.pending == old(self)@.pending.insert(
                            old(self)@.next_sequence,
                        )
                    }
                },
            },
    {
        let parsed = match parse_hints(hints) {
            Ok(p) => p,
            Err(e) => {
                return Err(NotifyFault::Hint(e));
            },
        };
        if self.next_sequence == u64::MAX {
            return Err(NotifyFault::Exhausted);
        }
        let id: u64 = self.next_sequence;
        self.next_sequence = id + 1;
        if actions.len() % 2 != 0 {
            return Err(NotifyFault::OddActions);
        }
        match check_keys(&actions) {
            Ok(()) => {},
            Err((index, fault)) => {
                return Err(NotifyFault::ActionName { index, fault });
            },
        }
        self.pending.insert(id);
        let ParsedHints { suppress_sound, transient, resident, urgency, category, image } = parsed;
        Ok(
            Message {
                id,
                notification: Notification::V1 {
                    suppress_sound,
                    transient,
                    resident,
                    urgency,
                    replaces_id,
                    summary,
                    body,
                    actions,
                    category,
                    expire_timeout,
                    image,
                },
            },
        )
    }

    /// Decides what to do about a reply from the host.
    ///
    /// An answer to a request releases the request's number and wakes the
    /// call that waits under it; an answer to a number that is not parked
    /// is refused and changes nothing. A dismissal and an invoked action
    /// become signals. A restart of the real service releases every number.
    pub fn dispatch(&mut self, reply: ReplyMessage) -> (r: Result<GuestAction, Unsolicited>)
        requires
            old(self).wf(),
        ensures
            final(self).wf(),
            final(self)@.next_sequence == old(self)@.next_sequence,
            match reply@.answers() {
                Some(sequence) => if old(self)@.pending.contains(sequence) {
                    &&& r matches Ok(action)
                    &&& action@ == (GuestActionView::Complete {
                        sequence,
                        result: result_of(reply@),
                    })
                    &&& final(self)@.pending == old(self)@.pending.remove(sequence)
                    &&& !final(self)@.pending.contains(sequence)
                } else {
                    &&& r == Err::<GuestAction, Unsolicited>(Unsolicited { sequence })
                    &&& final(self)@ == old(self)@
                },
                None => match reply@ {
                    ReplyView::Dismissed { id, reason } => {
                        &&& r matches Ok(action)
                        &&& action@ == (GuestActionView::EmitClosed { id, reason })
                        &&& final(self)@ == old(self)@
                    },
                    ReplyView::ActionInvoked { id, action: key } => {
                        &&& r matches Ok(action)
                        &&& action@ == (GuestActionView::EmitActionInvoked { id, action: key })
                        &&& final(self)@ == old(self)@
                    },
                    _ => {
                        &&& r matches Ok(action)
                        &&& action@ == (GuestActionView::Restart { failed: old(self)@.pending })
                        &&& final(self)@.pending == Set::<u64>::empty()
                    },
                },
            },
    {
        match reply {
            ReplyMessage::Id { id, sequence } => {
                if self.release(sequence) {
                    Ok(GuestAction::Complete { sequence, result: CallResult::Id(id) })
                } else {
                    assert(self@.pending =~= old(self)@.pending);
                    Err(Unsolicited { sequence })
                }
            },
            ReplyMessage::DBusError { name, message, sequence } => {
                if self.release(sequence) {
                    Ok(
                        GuestAction::Complete {
                            sequence,
                            result: CallResult::Error { name, message },
                        },
                    )
                } else {
                    assert(self@.pending =~= old(self)@.pending);
                    Err(Unsolicited { sequence })
                }
            },
            ReplyMessage::UnknownError { sequence } => {
                if self.release(sequence) {
                    Ok(GuestAction::Complete { sequence, result: CallResult::Unknown })
                } else {
                    assert(self@.pending =~= old(self)@.pending);
                    Err(Unsolicited { sequence })
                }
            },
            ReplyMessage::Dismissed { id, reason } => Ok(GuestAction::EmitClosed { id, reason }),
            ReplyMessage::ActionInvoked { id, action } => Ok(
                GuestAction::EmitActionInvoked { id, action },
            ),
            ReplyMessage::ServerRestart => {
                let mut failed: HashSet<u64> = HashSet::new();
                core::mem::swap(&mut failed, &mut self.pending);
                Ok(GuestAction::Restart { failed })
            },
        }
    }
}

/// Every parked number was given out before. So the number that the next
/// call gets is not parked, and no number is ever parked twice.
pub proof fn lemma_parked_numbers_were_given_out(s: &Server, sequence: u64)
    requires
        s.wf(),
    ensures
        s@.pending.contains(sequence) ==> sequence < s@.next_sequence,
        !s@.pending.contains(s@.next_sequence),
{
}

/// The class of error under which a failed call is reported on the local
/// bus.
#[derive(Clone, Copy, Debug, PartialEq, Eq, Structural)]
pub enum ErrorClass {
    /// The host refused the arguments of the call.
    InvalidArgs,
    /// The call failed for any other reason.
    Failed,
}

/// The class of an error with this name: that of invalid arguments for the
/// name that the host gives to a refused request, failure for every other.
pub open spec fn class_of(name: Seq<char>) -> ErrorClass {
    if name == invalid_args() {
        ErrorClass::InvalidArgs
    } else {
        ErrorClass::Failed
    }
}

/// The class of an error with this name.
pub fn error_class(name: &str) -> (class: ErrorClass)
    ensures
        class == class_of(name@),
{
    if same_text(name, "org.freedesktop.DBus.Error.InvalidArgs") {
        ErrorClass::InvalidArgs
    } else {
        ErrorClass::Failed
    }
}

/// What the caller is told: the identifier, or the class of the error and
/// its words.
pub open spec fn reported(result: CallResultView) -> Result<u32, (ErrorClass, Seq<char>)> {
    match result {
        CallResultView::Id(id) => Ok(id),
        CallResultView::Error { name, message } => Err(
            (
                class_of(name),
                match message {
                    Some(m) => m,
                    None => "failed"@,
                },
            ),
        ),
        CallResultView::Unknown => Err((ErrorClass::Failed, "failed"@)),
    }
}

/// What the caller is told about the call that `result` came to.
pub fn report(result: CallResult) -> (r: Result<u32, (ErrorClass, String)>)
    ensures
        match (r, reported(result@)) {
            (Ok(id), Ok(wanted)) => id == wanted,
            (Err((class, words)), Err((wanted, text))) => class == wanted && words@ == text,
            _ => false,
        },
{
    match result {
        CallResult::Id(id) => Ok(id),
        CallResult::Error { name, message } => {
            let class = error_class(name.as_str());
            Err((class, failure_message(message)))
        },
        CallResult::Unknown => Err((ErrorClass::Failed, failure_message(None))),
    }
}

/// The words for a call that failed: the message of the host's error, or
/// `failed` where it has none.
pub fn failure_message(message: Option<String>) -> (text: String)
    ensures
        text@ == match message {
            Some(m) => m@,
            None => "failed"@,
        },
{
    match message {
        Some(m) => m,
        None => String::from_str("failed"),
    }
}

/// The words for a call that was waiting when the real service restarted.
pub fn server_died() -> (text: String)
    ensures
        text@ == "Server died"@,
{
    String::from_str("Server died")
}

} // verus!
