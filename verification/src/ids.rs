//! Notification identifiers of the two domains.
//!
//! Both kinds are non-zero 32-bit integers; zero is reserved on the wire for
//! "new notification". They are separate types so that a host identifier can
//! never be handed to the guest by accident.

use vstd::prelude::*;
use vstd::std_specs::convert::FromSpecImpl;

verus! {

/// Identifier assigned by the real notification service on the host.
#[derive(Clone, Copy, Debug, PartialEq, Eq, Structural)]
pub struct HostId(u32);

/// Identifier under which the guest knows a notification.
#[derive(Clone, Copy, Debug, PartialEq, Eq, Structural)]
pub struct GuestId(u32);

impl View for HostId {
    type V = u32;

    closed spec fn view(&self) -> u32 {
        self.0
    }
}

impl View for GuestId {
    type V = u32;

    closed spec fn view(&self) -> u32 {
        self.0
    }
}

impl HostId {
    #[verifier::type_invariant]
    spec fn nonzero(self) -> bool {
        self.0 != 0
    }

    /// Wraps `v`, or gives `None` for the reserved value zero. "Less safe"
    /// because nothing ties `v` to an identifier the service really issued.
    pub fn new_less_safe(v: u32) -> (r: Option<Self>)
        ensures
            v == 0 <==> r is None,
            r matches Some(id) ==> id@ == v,
    {
        if v == 0 {
            None
        } else {
            Some(HostId(v))
        }
    }

    /// Wraps a number known not to be zero.
    pub(crate) fn from_nonzero(v: u32) -> (id: Self)
        requires
            v != 0,
        ensures
            id@ == v,
    {
        HostId(v)
    }

    /// The identifier as a plain number, never zero.
    pub fn get(self) -> (v: u32)
        ensures
            v == self@,
            v != 0,
    {
        proof {
            use_type_invariant(&self);
        }
        self.0
    }
}

impl GuestId {
    #[verifier::type_invariant]
    spec fn nonzero(self) -> bool {
        self.0 != 0
    }

    /// Wraps `v`, or gives `None` for the reserved value zero. "Less safe"
    /// because nothing ties `v` to an identifier this proxy really allocated.
    pub fn new_less_safe(v: u32) -> (r: Option<Self>)
        ensures
            v == 0 <==> r is None,
            r matches Some(id) ==> id@ == v,
    {
        if v == 0 {
            None
        } else {
            Some(GuestId(v))
        }
    }

    /// Wraps a number known not to be zero.
    pub(crate) fn from_nonzero(v: u32) -> (id: Self)
        requires
            v != 0,
        ensures
            id@ == v,
    {
        GuestId(v)
    }

    /// The identifier as a plain number, never zero.
    pub fn get(self) -> (v: u32)
        ensures
            v == self@,
            v != 0,
    {
        proof {
            use_type_invariant(&self);
        }
        self.0
    }
}

impl From<HostId> for u32 {
    /// The identifier as a plain number.
    fn from(value: HostId) -> (v: u32) {
        value.get()
    }
}

impl FromSpecImpl<HostId> for u32 {
    open spec fn obeys_from_spec() -> bool {
        true
    }

    open spec fn from_spec(value: HostId) -> u32 {
        value@
    }
}

impl From<GuestId> for u32 {
    /// The identifier as a plain number.
    fn from(value: GuestId) -> (v: u32) {
        value.get()
    }
}

impl FromSpecImpl<GuestId> for u32 {
    open spec fn obeys_from_spec() -> bool {
        true
    }

    open spec fn from_spec(value: GuestId) -> u32 {
        value@
    }
}

} // verus!
