//! What the real notification service says it can do.
//!
//! The service advertises its capabilities as a list of names. They are
//! kept as a set of flags; requests are cut down to what the service
//! supports before they are forwarded.

use crate::sanitize::chars_of;
use vstd::prelude::*;

verus! {

/// A capability that a notification service may advertise.
#[derive(Clone, Copy, Debug, PartialEq, Eq, Structural)]
pub enum Capability {
    Body,
    BodyHyperlinks,
    BodyMarkup,
    Persistence,
    Sound,
    BodyImages,
    IconMulti,
    IconStatic,
    Actions,
    ActionIcons,
    InlineReply,
}

/// How many capabilities there are.
pub const CAPABILITY_COUNT: usize = 11;

impl Capability {
    /// The position of the capability in the order of declaration, which
    /// is also the number of its bit.
    pub open spec fn index(self) -> int {
        match self {
            Capability::Body => 0,
            Capability::BodyHyperlinks => 1,
            Capability::BodyMarkup => 2,
            Capability::Persistence => 3,
            Capability::Sound => 4,
            Capability::BodyImages => 5,
            Capability::IconMulti => 6,
            Capability::IconStatic => 7,
            Capability::Actions => 8,
            Capability::ActionIcons => 9,
            Capability::InlineReply => 10,
        }
    }

    /// The bit that stands for the capability.
    pub open spec fn mask(self) -> u16 {
        match self {
            Capability::Body => 0x001,
            Capability::BodyHyperlinks => 0x002,
            Capability::BodyMarkup => 0x004,
            Capability::Persistence => 0x008,
            Capability::Sound => 0x010,
            Capability::BodyImages => 0x020,
            Capability::IconMulti => 0x040,
            Capability::IconStatic => 0x080,
            Capability::Actions => 0x100,
            Capability::ActionIcons => 0x200,
            Capability::InlineReply => 0x400,
        }
    }

    /// The name under which a service advertises the capability.
    pub open spec fn spec_name(self) -> Seq<char> {
        match self {
            Capability::Body => "body"@,
            Capability::BodyHyperlinks => "body-hyperlinks"@,
            Capability::BodyMarkup => "body-markup"@,
            Capability::Persistence => "persistence"@,
            Capability::Sound => "sound"@,
            Capability::BodyImages => "body-images"@,
            Capability::IconMulti => "icon-multi"@,
            Capability::IconStatic => "icon-static"@,
            Capability::Actions => "actions"@,
            Capability::ActionIcons => "action-icons"@,
            Capability::InlineReply => "inline-reply"@,
        }
    }

    /// The bit that stands for the capability.
    pub fn bit(self) -> (m: u16)
        ensures
            m == self.mask(),
    {
        match self {
            Capability::Body => 0x001,
            Capability::BodyHyperlinks => 0x002,
            Capability::BodyMarkup => 0x004,
            Capability::Persistence => 0x008,
            Capability::Sound => 0x010,
            Capability::BodyImages => 0x020,
            Capability::IconMulti => 0x040,
            Capability::IconStatic => 0x080,
            Capability::Actions => 0x100,
            Capability::ActionIcons => 0x200,
            Capability::InlineReply => 0x400,
        }
    }

    /// The name under which a service advertises the capability.
    pub fn name(self) -> (n: &'static str)
        ensures
            n@ == self.spec_name(),
    {
        match self {
            Capability::Body => "body",
            Capability::BodyHyperlinks => "body-hyperlinks",
            Capability::BodyMarkup => "body-markup",
            Capability::Persistence => "persistence",
            Capability::Sound => "sound",
            Capability::BodyImages => "body-images",
            Capability::IconMulti => "icon-multi",
            Capability::IconStatic => "icon-static",
            Capability::Actions => "actions",
            Capability::ActionIcons => "action-icons",
            Capability::InlineReply => "inline-reply",
        }
    }

    /// The capability at a position in the order of declaration.
    pub fn nth(k: usize) -> (c: Capability)
        requires
            k < CAPABILITY_COUNT,
        ensures
            c.index() == k,
    {
        if k == 0 {
            Capability::Body
        } else if k == 1 {
            Capability::BodyHyperlinks
        } else if k == 2 {
            Capability::BodyMarkup
        } else if k == 3 {
            Capability::Persistence
        } else if k == 4 {
            Capability::Sound
        } else if k == 5 {
            Capability::BodyImages
        } else if k == 6 {
            Capability::IconMulti
        } else if k == 7 {
            Capability::IconStatic
        } else if k == 8 {
            Capability::Actions
        } else if k == 9 {
            Capability::ActionIcons
        } else {
            Capability::InlineReply
        }
    }
}

/// Whether two strings hold the same text.
pub fn same_text(a: &str, b: &str) -> (same: bool)
    ensures
        same == (a@ == b@),
{
    let x = chars_of(a);
    let y = chars_of(b);
    if x.len() != y.len() {
        return false;
    }
    let mut i: usize = 0;
    while i < x.len()
        invariant
            i <= x.len(),
            x.len() == y.len(),
            x@ == a@,
            y@ == b@,
            forall|j: int| 0 <= j < i ==> x@[j] == y@[j],
        decreases x.len() - i,
    {
        if x[i] != y[i] {
            return false;
        }
        i += 1;
    }
    assert(x@ =~= y@);
    true
}

/// A set of capabilities.
#[derive(Clone, Copy, Debug, PartialEq, Eq, Structural)]
pub struct Capabilities {
    bits: u16,
}

impl View for Capabilities {
    type V = Set<Capability>;

    closed spec fn view(&self) -> Set<Capability> {
        Set::new(|c: Capability| self.bits & c.mask() == c.mask())
    }
}

proof fn lemma_masks(c: Capability, d: Capability, bits: u16)
    ensures
        0u16 & c.mask() != c.mask(),
        ((bits | c.mask()) & d.mask() == d.mask()) <==> (bits & d.mask() == d.mask() || c == d),
{
    let m = c.mask();
    let n = d.mask();
    assert(m == 1 || m == 2 || m == 4 || m == 8 || m == 16 || m == 32 || m == 64 || m == 128 || m
        == 256 || m == 512 || m == 1024);
    assert(n == 1 || n == 2 || n == 4 || n == 8 || n == 16 || n == 32 || n == 64 || n == 128 || n
        == 256 || n == 512 || n == 1024);
    assert(m == n <==> c == d);
    assert(0u16 & m != m) by (bit_vector)
        requires
            m == 1 || m == 2 || m == 4 || m == 8 || m == 16 || m == 32 || m == 64 || m == 128 || m
                == 256 || m == 512 || m == 1024,
    ;
    assert(((bits | m) & n == n) <==> (bits & n == n || m == n)) by (bit_vector)
        requires
            m == 1 || m == 2 || m == 4 || m == 8 || m == 16 || m == 32 || m == 64 || m == 128 || m
                == 256 || m == 512 || m == 1024,
            n == 1 || n == 2 || n == 4 || n == 8 || n == 16 || n == 32 || n == 64 || n == 128 || n
                == 256 || n == 512 || n == 1024,
    ;
}

impl Capabilities {
    /// The set without any capability.
    pub fn empty() -> (caps: Self)
        ensures
            caps@ == Set::<Capability>::empty(),
    {
        let caps = Capabilities { bits: 0 };
        proof {
            assert forall|c: Capability| !caps@.contains(c) by {
                lemma_masks(c, c, 0);
            }
            assert(caps@ =~= Set::<Capability>::empty());
        }
        caps
    }

    /// Whether the set holds `c`.
    pub fn contains(&self, c: Capability) -> (held: bool)
        ensures
            held == self@.contains(c),
    {
        let m = c.bit();
        self.bits & m == m
    }

    /// Adds `c` to the set.
    pub fn insert(&mut self, c: Capability)
        ensures
            final(self)@ == old(self)@.insert(c),
    {
        let ghost before = self.bits;
        self.bits = self.bits | c.bit();
        proof {
            assert forall|d: Capability| self@.contains(d) == old(self)@.insert(c).contains(d) by {
                lemma_masks(c, d, before);
            }
            assert(self@ =~= old(self)@.insert(c));
        }
    }

    /// Adds the capabilities that `name` stands for: one, or none where
    /// the name is not known.
    pub fn insert_named(&mut self, name: &str)
        ensures
            final(self)@ == old(self)@.union(named(name@)),
    {
        let mut k: usize = 0;
        proof {
            assert(self@ =~= old(self)@.union(named_below(name@, 0)));
        }
        while k < CAPABILITY_COUNT
            invariant
                k <= CAPABILITY_COUNT,
                self@ == old(self)@.union(named_below(name@, k as int)),
            decreases CAPABILITY_COUNT - k,
        {
            let c = Capability::nth(k);
            let ghost before = self@;
            if same_text(name, c.name()) {
                self.insert(c);
            }
            proof {
                assert forall|d: Capability| #[trigger] d.index() == k implies d == c by {}
                assert(self@ =~= old(self)@.union(named_below(name@, k + 1)));
            }
            k += 1;
        }
        proof {
            assert forall|d: Capability| #[trigger] d.index() < CAPABILITY_COUNT by {}
            assert(named_below(name@, CAPABILITY_COUNT as int) =~= named(name@));
        }
    }

    /// The capabilities whose names stand in `names`. Names that stand for
    /// no capability are passed over.
    pub fn from_names(names: &Vec<String>) -> (caps: Self)
        ensures
            caps@ == advertised(names@),
    {
        let mut caps = Capabilities::empty();
        let mut i: usize = 0;
        proof {
            assert(caps@ =~= advertised(names@.take(0)));
        }
        while i < names.len()
            invariant
                i <= names.len(),
                caps@ == advertised(names@.take(i as int)),
            decreases names.len() - i,
        {
            caps.insert_named(names[i].as_str());
            proof {
                let done = names@.take(i as int);
                let next = names@.take(i + 1);
                assert forall|c: Capability|
                    advertised(next).contains(c) <==> (advertised(done).contains(c) || named(
                        names@[i as int]@,
                    ).contains(c)) by {
                    if advertised(done).contains(c) {
                        let j = choose|j: int|
                            0 <= j < done.len() && #[trigger] done[j]@ == c.spec_name();
                        assert(next[j]@ == c.spec_name());
                    }
                    if named(names@[i as int]@).contains(c) {
                        assert(next[i as int]@ == c.spec_name());
                    }
                    if advertised(next).contains(c) {
                        let j = choose|j: int|
                            0 <= j < next.len() && #[trigger] next[j]@ == c.spec_name();
                        if j < i {
                            assert(done[j]@ == c.spec_name());
                        }
                    }
                }
                assert(caps@ =~= advertised(next));
            }
            i += 1;
        }
        proof {
            assert(names@.take(i as int) =~= names@);
        }
        caps
    }
}

/// The capabilities that go by the name `name`.
pub open spec fn named(name: Seq<char>) -> Set<Capability> {
    Set::new(|c: Capability| c.spec_name() == name)
}

/// Those of the capabilities named `name` that stand before position `k`.
pub open spec fn named_below(name: Seq<char>, k: int) -> Set<Capability> {
    Set::new(|c: Capability| c.index() < k && c.spec_name() == name)
}

/// The capabilities of a service that advertises `names`: each one whose
/// name is in the list.
pub open spec fn advertised(names: Seq<String>) -> Set<Capability> {
    Set::new(
        |c: Capability| exists|i: int| 0 <= i < names.len() && #[trigger] names[i]@ == c.spec_name(),
    )
}

impl Default for Capabilities {
    fn default() -> (caps: Self)
        ensures
            caps@ == Set::<Capability>::empty(),
    {
        Capabilities::empty()
    }
}

} // verus!
