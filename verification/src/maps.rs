//! Two-way table between host and guest notification identifiers.
//!
//! The host keeps the real identifiers to itself: the guest only ever sees
//! identifiers allocated here. The two directions are kept as inverse maps,
//! guest identifiers are recycled but never handed out while still live, and
//! nothing here overwrites a live entry.

use crate::ids::{GuestId, HostId};
use std::collections::BTreeMap;
use vstd::prelude::*;

verus! {

/// Why an identifier could not be allocated.
#[derive(Clone, Copy, Debug, PartialEq, Eq, Structural)]
pub enum AllocateError {
    /// The host identifier, or the guest identifier asked for, is live in
    /// another pairing: the real service reused an identifier without
    /// closing it first.
    InUse,
    /// Every guest identifier is live.
    Exhausted,
}

/// The identifier reached from `from` by `k` steps of [`next`], for a
/// non-zero `from` and `0 <= k <= u32::MAX`.
pub open spec fn step(from: u32, k: int) -> int {
    if from + k <= u32::MAX {
        from + k
    } else {
        from + k - u32::MAX
    }
}

/// `g` is the first identifier from `last` on, in the wrap-around order
/// that skips zero, which `used` does not hold.
pub open spec fn is_next_free(last: u32, used: Set<u32>, g: u32) -> bool {
    exists|k: int|
        {
            &&& 0 <= k < u32::MAX
            &&& g == #[trigger] step(last, k)
            &&& !used.contains(g)
            &&& forall|j: int| 0 <= j < k ==> used.contains(#[trigger] step(last, j) as u32)
        }
}

/// Every non-zero identifier is in `used`.
pub open spec fn all_used(used: Set<u32>) -> bool {
    forall|g: u32| g != 0 ==> used.contains(g)
}

/// The identifier after `t`: `t + 1`, wrapping from `u32::MAX` to 1 so that
/// zero is never produced.
pub open spec fn successor(t: u32) -> u32 {
    if t == u32::MAX {
        1
    } else {
        (t + 1) as u32
    }
}

/// The identifier after `t`.
pub fn next(t: u32) -> (r: u32)
    ensures
        r == successor(t),
        r != 0,
        t != 0 ==> r == step(t, 1),
{
    if t == u32::MAX {
        1
    } else {
        t + 1
    }
}

/// The mapping state of one proxy.
pub struct Maps {
    guest_to_host_map: BTreeMap<u32, u32>,
    host_to_guest_map: BTreeMap<u32, u32>,
    last_id: u32,
}

impl Maps {
    /// Guest identifier to host identifier, for every live notification.
    pub closed spec fn guest_to_host(&self) -> Map<u32, u32> {
        self.guest_to_host_map@
    }

    /// Host identifier to guest identifier, for every live notification.
    pub closed spec fn host_to_guest(&self) -> Map<u32, u32> {
        self.host_to_guest_map@
    }

    /// The next candidate for allocation: the search for a free
    /// identifier starts with it.
    pub closed spec fn last_id(&self) -> u32 {
        self.last_id
    }

    /// The two maps are inverses of each other, no identifier in them is
    /// zero, and neither is `last_id`.
    pub closed spec fn wf(&self) -> bool {
        &&& self.last_id != 0
        &&& forall|g: u32| #[trigger]
            self.guest_to_host_map@.contains_key(g) ==> {
                &&& g != 0
                &&& self.guest_to_host_map@[g] != 0
                &&& self.host_to_guest_map@.contains_key(self.guest_to_host_map@[g])
                &&& self.host_to_guest_map@[self.guest_to_host_map@[g]] == g
            }
        &&& forall|h: u32| #[trigger]
            self.host_to_guest_map@.contains_key(h) ==> {
                &&& h != 0
                &&& self.host_to_guest_map@[h] != 0
                &&& self.guest_to_host_map@.contains_key(self.host_to_guest_map@[h])
                &&& self.guest_to_host_map@[self.host_to_guest_map@[h]] == h
            }
    }

    /// `guest` and `host` are paired in this table.
    pub open spec fn pairs(&self, guest: u32, host: u32) -> bool {
        &&& self.guest_to_host().contains_key(guest)
        &&& self.guest_to_host()[guest] == host
    }

    /// An empty table whose first allocation will be 1.
    pub fn new() -> (m: Self)
        ensures
            m.wf(),
            m.guest_to_host() == Map::<u32, u32>::empty(),
            m.host_to_guest() == Map::<u32, u32>::empty(),
            m.last_id() == 1,
    {
        Maps { guest_to_host_map: BTreeMap::new(), host_to_guest_map: BTreeMap::new(), last_id: 1 }
    }

    /// Records that the real service answered with `id`, and gives the
    /// guest identifier to report.
    ///
    /// With `guest_id` given (the request replaced a notification of the
    /// guest's), that identifier is kept: the pairing is entered, or found
    /// as it stands. Without it, the search goes from `last_id` on,
    /// wrapping past `u32::MAX` to 1, to the first identifier that is not
    /// live; `id` is paired with that one, and the identifier after it is
    /// the next candidate. Nothing live is ever overwritten: where
    /// either identifier is live in another pairing the call fails with
    /// `InUse` and changes nothing, as it does with `Exhausted` where no
    /// guest identifier is left.
    pub fn next_id(&mut self, id: HostId, guest_id: Option<GuestId>) -> (r: Result<
        GuestId,
        AllocateError,
    >)
        requires
            old(self).wf(),
        ensures
            final(self).wf(),
            match guest_id {
                Some(hint) => {
                    &&& r is Ok <==> old(self).pairs(hint@, id@) || (!old(
                        self,
                    ).guest_to_host().contains_key(hint@) && !old(
                        self,
                    ).host_to_guest().contains_key(id@))
                    &&& r matches Ok(g) ==> g == hint && final(self).last_id() == old(
                        self,
                    ).last_id()
                    &&& r matches Err(e) ==> e == AllocateError::InUse
                },
                None => {
                    &&& r is Ok <==> !old(self).host_to_guest().contains_key(id@) && !all_used(
                        old(self).guest_to_host().dom(),
                    )
                    &&& r matches Ok(g) ==> {
                        &&& !old(self).guest_to_host().contains_key(g@)
                        &&& is_next_free(old(self).last_id(), old(self).guest_to_host().dom(), g@)
                        &&& final(self).last_id() == successor(g@)
                    }
                    &&& r matches Err(e) ==> (e == AllocateError::InUse <==> old(
                        self,
                    ).host_to_guest().contains_key(id@))
                },
            },
            r matches Ok(g) ==> {
                &&& final(self).guest_to_host() == old(self).guest_to_host().insert(g@, id@)
                &&& final(self).host_to_guest() == old(self).host_to_guest().insert(id@, g@)
            },
            r is Err ==> *final(self) == *old(self),
    {
        let host: u32 = id.get();
        if let Some(hint) = guest_id {
            let guest: u32 = hint.get();
            let known_guest = self.guest_to_host_map.get(&guest);
            let known_host = self.host_to_guest_map.get(&host);
            match (known_guest, known_host) {
                (None, None) => {
                    self.guest_to_host_map.insert(guest, host);
                    self.host_to_guest_map.insert(host, guest);
                    Ok(hint)
                },
                (Some(h), _) => {
                    if *h == host {
                        assert(self.guest_to_host_map@ =~= self.guest_to_host_map@.insert(
                            guest,
                            host,
                        ));
                        assert(self.host_to_guest_map@ =~= self.host_to_guest_map@.insert(
                            host,
                            guest,
                        ));
                        Ok(hint)
                    } else {
                        Err(AllocateError::InUse)
                    }
                },
                (None, Some(_)) => Err(AllocateError::InUse),
            }
        } else {
            if self.host_to_guest_map.contains_key(&host) {
                return Err(AllocateError::InUse);
            }
            let start: u32 = self.last_id;
            let mut candidate: u32 = start;
            let ghost mut k: int = 0;
            while self.guest_to_host_map.contains_key(&candidate)
                invariant
                    *self == *old(self),
                    self.wf(),
                    guest_id is None,
                    host == id@,
                    !self.host_to_guest_map@.contains_key(host),
                    start == self.last_id,
                    0 <= k < u32::MAX,
                    candidate == step(start, k),
                    forall|j: int|
                        0 <= j < k ==> self.guest_to_host_map@.contains_key(
                            #[trigger] step(start, j) as u32,
                        ),
                decreases u32::MAX - k,
            {
                candidate = next(candidate);
                if candidate == start {
                    proof {
                        assert forall|g: u32| g != 0 implies self.guest_to_host_map@.dom().contains(
                            g,
                        ) by {
                            let j: int = if g >= start {
                                g - start
                            } else {
                                g - start + u32::MAX
                            };
                            assert(step(start, j) == g);
                        }
                    }
                    return Err(AllocateError::Exhausted);
                }
                proof {
                    k = k + 1;
                }
            }
            self.last_id = next(candidate);
            self.guest_to_host_map.insert(candidate, host);
            self.host_to_guest_map.insert(host, candidate);
            Ok(GuestId::from_nonzero(candidate))
        }
    }

    /// The host identifier that `id` stands for, if the guest owns such a
    /// notification.
    pub fn lookup_guest_id(&self, id: GuestId) -> (r: Option<HostId>)
        requires
            self.wf(),
        ensures
            r is Some <==> self.guest_to_host().contains_key(id@),
            r matches Some(h) ==> h@ == self.guest_to_host()[id@],
    {
        let guest: u32 = id.get();
        match self.guest_to_host_map.get(&guest) {
            Some(h) => Some(HostId::from_nonzero(*h)),
            None => None,
        }
    }

    /// The guest identifier under which `id` is known, if it belongs to
    /// this guest at all.
    pub fn lookup_host_id(&self, id: HostId) -> (r: Option<GuestId>)
        requires
            self.wf(),
        ensures
            r is Some <==> self.host_to_guest().contains_key(id@),
            r matches Some(g) ==> g@ == self.host_to_guest()[id@],
    {
        let host: u32 = id.get();
        match self.host_to_guest_map.get(&host) {
            Some(g) => Some(GuestId::from_nonzero(*g)),
            None => None,
        }
    }

    /// Forgets the notification that the host knows as `id`, in both
    /// directions at once, and gives the guest identifier it had.
    pub fn remove_host_id(&mut self, id: HostId) -> (r: Option<GuestId>)
        requires
            old(self).wf(),
        ensures
            final(self).wf(),
            final(self).last_id() == old(self).last_id(),
            r is Some <==> old(self).host_to_guest().contains_key(id@),
            r matches Some(g) ==> {
                &&& g@ == old(self).host_to_guest()[id@]
                &&& final(self).host_to_guest() == old(self).host_to_guest().remove(id@)
                &&& final(self).guest_to_host() == old(self).guest_to_host().remove(g@)
            },
            r is None ==> {
                &&& final(self).host_to_guest() == old(self).host_to_guest()
                &&& final(self).guest_to_host() == old(self).guest_to_host()
            },
    {
        let host: u32 = id.get();
        match self.host_to_guest_map.remove(&host) {
            Some(guest) => {
                self.guest_to_host_map.remove(&guest);
                Some(GuestId::from_nonzero(guest))
            },
            None => {
                assert(self.host_to_guest_map@ =~= old(self).host_to_guest_map@);
                None
            },
        }
    }

    /// Forgets every notification. `last_id` stays, so identifiers handed
    /// out before are not reused at once.
    pub fn clear(&mut self)
        requires
            old(self).wf(),
        ensures
            final(self).wf(),
            final(self).guest_to_host() == Map::<u32, u32>::empty(),
            final(self).host_to_guest() == Map::<u32, u32>::empty(),
            final(self).last_id() == old(self).last_id(),
    {
        self.guest_to_host_map.clear();
        self.host_to_guest_map.clear();
    }
}

impl Default for Maps {
    fn default() -> (m: Self)
        ensures
            m.wf(),
            m.guest_to_host() == Map::<u32, u32>::empty(),
            m.host_to_guest() == Map::<u32, u32>::empty(),
            m.last_id() == 1,
    {
        Maps::new()
    }
}

/// In a well-formed table the two directions are inverses: `g` maps to `h`
/// exactly when `h` maps to `g`.
pub proof fn lemma_maps_are_inverse(m: &Maps, g: u32, h: u32)
    requires
        m.wf(),
    ensures
        (m.guest_to_host().contains_key(g) && m.guest_to_host()[g] == h) <==> (
        m.host_to_guest().contains_key(h) && m.host_to_guest()[h] == g),
{
}

/// In a well-formed table no live identifier, of either kind, is zero,
/// and neither is the next candidate.
pub proof fn lemma_live_ids_nonzero(m: &Maps, g: u32, h: u32)
    requires
        m.wf(),
    ensures
        m.guest_to_host().contains_key(g) ==> g != 0 && m.guest_to_host()[g] != 0,
        m.host_to_guest().contains_key(h) ==> h != 0 && m.host_to_guest()[h] != 0,
        m.last_id() != 0,
{
}

} // verus!
