//! The four card suits and the five bidding strains, with the bridge-specific
//! total orders: Spades > Hearts > Diamonds > Clubs among suits, and NoTrump
//! above every suit among strains.
use core::cmp::Ordering;
use vstd::prelude::*;

verus! {

/// One of the four card suits, ranked Spades > Hearts > Diamonds > Clubs.
#[derive(Copy, Clone, Debug, PartialEq, Eq, Hash, Structural)]
pub enum Suit {
    Spades,
    Hearts,
    Diamonds,
    Clubs,
}

impl Suit {
    /// Position of this suit in the bridge ranking; a higher value outranks
    /// a lower one. This order is not the declaration order.
    pub open spec fn rank(self) -> int {
        match self {
            Suit::Clubs => 0,
            Suit::Diamonds => 1,
            Suit::Hearts => 2,
            Suit::Spades => 3,
        }
    }

    /// Compares two suits by the bridge ranking.
    pub fn cmp(&self, other: &Suit) -> (r: Ordering)
        ensures
            r == self.cmp_spec(other),
    {
        let a = self.rank_value();
        let b = other.rank_value();
        if a < b {
            Ordering::Less
        } else if a == b {
            Ordering::Equal
        } else {
            Ordering::Greater
        }
    }

    /// What `cmp` and `partial_cmp` return, in terms of `rank`.
    pub open spec fn cmp_spec(self, other: &Suit) -> Ordering {
        if self.rank() < other.rank() {
            Ordering::Less
        } else if self.rank() == other.rank() {
            Ordering::Equal
        } else {
            Ordering::Greater
        }
    }

    fn rank_value(&self) -> (r: u8)
        ensures
            r as int == self.rank(),
    {
        match self {
            Suit::Clubs => 0,
            Suit::Diamonds => 1,
            Suit::Hearts => 2,
            Suit::Spades => 3,
        }
    }
}

impl PartialOrd for Suit {
    fn partial_cmp(&self, other: &Suit) -> (r: Option<Ordering>) {
        Some(self.cmp(other))
    }
}

impl vstd::std_specs::cmp::PartialOrdSpecImpl for Suit {
    open spec fn obeys_partial_cmp_spec() -> bool {
        true
    }

    open spec fn partial_cmp_spec(&self, other: &Suit) -> Option<Ordering> {
        Some(self.cmp_spec(other))
    }
}

/// The denomination of a bid: NoTrump or one of the four suits. NoTrump ranks
/// above every suit; among suits the order follows `Suit`'s order.
#[derive(Copy, Clone, Debug, PartialEq, Eq, Hash, Structural)]
pub enum Strain {
    NoTrump,
    Suit(Suit),
}

impl Strain {
    /// Position of this strain in the bidding ranking; NoTrump sits above
    /// every suit, and suits keep their own ranking.
    pub open spec fn rank(self) -> int {
        match self {
            Strain::NoTrump => 4,
            Strain::Suit(s) => s.rank(),
        }
    }

    /// Compares two strains by the bidding ranking.
    pub fn cmp(&self, other: &Strain) -> (r: Ordering)
        ensures
            r == self.cmp_spec(other),
    {
        match (self, other) {
            (Strain::NoTrump, Strain::NoTrump) => Ordering::Equal,
            (Strain::NoTrump, Strain::Suit(_)) => Ordering::Greater,
            (Strain::Suit(_), Strain::NoTrump) => Ordering::Less,
            (Strain::Suit(s1), Strain::Suit(s2)) => s1.cmp(s2),
        }
    }

    /// What `cmp` and `partial_cmp` return, in terms of `rank`.
    pub open spec fn cmp_spec(self, other: &Strain) -> Ordering {
        if self.rank() < other.rank() {
            Ordering::Less
        } else if self.rank() == other.rank() {
            Ordering::Equal
        } else {
            Ordering::Greater
        }
    }
}

impl PartialOrd for Strain {
    fn partial_cmp(&self, other: &Strain) -> (r: Option<Ordering>) {
        Some(self.cmp(other))
    }
}

impl vstd::std_specs::cmp::PartialOrdSpecImpl for Strain {
    open spec fn obeys_partial_cmp_spec() -> bool {
        true
    }

    open spec fn partial_cmp_spec(&self, other: &Strain) -> Option<Ordering> {
        Some(self.cmp_spec(other))
    }
}

impl From<Suit> for Strain {
    fn from(suit: Suit) -> (r: Strain) {
        Strain::Suit(suit)
    }
}

impl vstd::std_specs::convert::FromSpecImpl<Suit> for Strain {
    open spec fn obeys_from_spec() -> bool {
        true
    }

    open spec fn from_spec(suit: Suit) -> Strain {
        Strain::Suit(suit)
    }
}

/// The suit ranking is a strict total order: irreflexive, transitive, and any
/// two distinct suits are comparable one way exactly; Spades outranks Hearts,
/// Hearts outranks Diamonds, Diamonds outranks Clubs.
pub proof fn lemma_suit_order_total()
    ensures
        forall|a: Suit, b: Suit|
            #![trigger a.rank(), b.rank()]
            a.rank() == b.rank() ==> a == b,
        forall|a: Suit, b: Suit|
            #![trigger a.rank(), b.rank()]
            a.rank() < b.rank() || a.rank() == b.rank() || b.rank() < a.rank(),
        forall|a: Suit, b: Suit, c: Suit|
            #![trigger a.rank(), b.rank(), c.rank()]
            a.rank() < b.rank() && b.rank() < c.rank() ==> a.rank() < c.rank(),
        Suit::Spades.rank() > Suit::Hearts.rank(),
        Suit::Hearts.rank() > Suit::Diamonds.rank(),
        Suit::Diamonds.rank() > Suit::Clubs.rank(),
{
}

/// NoTrump outranks every suit, and the ranking of suit-wrapped strains agrees
/// with the ranking of the suits themselves.
pub proof fn lemma_strain_order()
    ensures
        forall|s: Suit| Strain::NoTrump.rank() > (#[trigger] Strain::Suit(s).rank()),
        forall|s1: Suit, s2: Suit|
            #![trigger Strain::Suit(s1).rank(), Strain::Suit(s2).rank()]
            Strain::Suit(s1).rank() < Strain::Suit(s2).rank() <==> s1.rank() < s2.rank(),
        forall|a: Strain, b: Strain|
            #![trigger a.rank(), b.rank()]
            a.rank() == b.rank() ==> a == b,
{
    assert forall|a: Strain, b: Strain| a.rank() == b.rank() implies a == b by {
        match (a, b) {
            (Strain::Suit(s1), Strain::Suit(s2)) => {
                assert(s1.rank() == s2.rank() ==> s1 == s2);
            },
            _ => {},
        }
    }
}

} // verus!
