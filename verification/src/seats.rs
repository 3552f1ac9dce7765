//! The four seats on their rotation cycle North -> East -> South -> West, the
//! two partnership sides, and the classification of one seat relative to
//! another.
use vstd::prelude::*;

verus! {

/// One of the four seats at the table, in play order North, East, South, West.
#[derive(Copy, Clone, Debug, PartialEq, Eq, Hash, Structural)]
pub enum Seat {
    North,
    East,
    South,
    West,
}

/// How one seat stands relative to another: the same seat, its left-hand
/// opponent, its partner, or its right-hand opponent.
#[derive(Copy, Clone, Debug, PartialEq, Eq, Hash, Structural)]
pub enum SeatRelation {
    Me,
    LHO,
    Partner,
    RHO,
}

/// One of the two partnerships: North-South or East-West.
#[derive(Copy, Clone, Debug, PartialEq, Eq, Hash, Structural)]
pub enum Side {
    NS,
    EW,
}

impl Seat {
    /// The seat one step clockwise on the rotation cycle.
    pub open spec fn next_spec(self) -> Seat {
        match self {
            Seat::North => Seat::East,
            Seat::East => Seat::South,
            Seat::South => Seat::West,
            Seat::West => Seat::North,
        }
    }

    /// The seat two steps away on the rotation cycle.
    pub open spec fn partner_spec(self) -> Seat {
        self.next_spec().next_spec()
    }

    /// The seat one step counter-clockwise on the rotation cycle.
    pub open spec fn rho_spec(self) -> Seat {
        self.next_spec().next_spec().next_spec()
    }

    /// The partnership this seat belongs to.
    pub open spec fn side_spec(self) -> Side {
        match self {
            Seat::North => Side::NS,
            Seat::East => Side::EW,
            Seat::South => Side::NS,
            Seat::West => Side::EW,
        }
    }

    /// How this seat stands relative to `other`.
    pub open spec fn relation_to_spec(self, other: Seat) -> SeatRelation {
        if self == other {
            SeatRelation::Me
        } else if self == other.next_spec() {
            SeatRelation::LHO
        } else if self == other.partner_spec() {
            SeatRelation::Partner
        } else {
            SeatRelation::RHO
        }
    }

    /// Next player in play order.
    ///
    /// Same as [Self::lho].
    pub fn next(self) -> (r: Seat)
        ensures
            r == self.next_spec(),
    {
        match self {
            Seat::North => Seat::East,
            Seat::East => Seat::South,
            Seat::South => Seat::West,
            Seat::West => Seat::North,
        }
    }

    /// Partner.
    pub fn partner(self) -> (r: Seat)
        ensures
            r == self.partner_spec(),
    {
        match self {
            Seat::North => Seat::South,
            Seat::East => Seat::West,
            Seat::South => Seat::North,
            Seat::West => Seat::East,
        }
    }

    /// Left hand opponent.
    ///
    /// Same as [Self::next].
    pub fn lho(self) -> (r: Seat)
        ensures
            r == self.next_spec(),
    {
        match self {
            Seat::North => Seat::East,
            Seat::East => Seat::South,
            Seat::South => Seat::West,
            Seat::West => Seat::North,
        }
    }

    /// Right hand opponent.
    pub fn rho(self) -> (r: Seat)
        ensures
            r == self.rho_spec(),
    {
        match self {
            Seat::North => Seat::West,
            Seat::East => Seat::North,
            Seat::South => Seat::East,
            Seat::West => Seat::South,
        }
    }

    /// The partnership this seat belongs to.
    pub fn side(self) -> (r: Side)
        ensures
            r == self.side_spec(),
    {
        match self {
            Seat::North => Side::NS,
            Seat::East => Side::EW,
            Seat::South => Side::NS,
            Seat::West => Side::EW,
        }
    }

    /// Classifies this seat relative to `other`: the same seat is `Me`, the
    /// seat after `other` in play order is `LHO`, `other`'s partner is
    /// `Partner`, and the remaining seat is `RHO`.
    pub fn relation_to(self, other: Seat) -> (r: SeatRelation)
        ensures
            r == self.relation_to_spec(other),
    {
        if self == other {
            SeatRelation::Me
        } else if self == other.next() {
            SeatRelation::LHO
        } else if self == other.partner() {
            SeatRelation::Partner
        } else {
            SeatRelation::RHO
        }
    }
}

impl Side {
    /// The other partnership.
    pub open spec fn opponents_spec(self) -> Side {
        match self {
            Side::NS => Side::EW,
            Side::EW => Side::NS,
        }
    }

    /// The other partnership.
    pub fn opponents(self) -> (r: Side)
        ensures
            r == self.opponents_spec(),
    {
        match self {
            Side::NS => Side::EW,
            Side::EW => Side::NS,
        }
    }
}

/// The seats form a 4-element cycle under `next`: four steps return to the
/// start, no seat is its own successor, the partner is two steps away and
/// partnering twice returns to the start, `lho` is `next`, and `rho` undoes
/// `next` in both orders.
pub proof fn lemma_seat_cycle()
    ensures
        forall|s: Seat| (#[trigger] s.next_spec()).next_spec().next_spec().next_spec() == s,
        forall|s: Seat| #[trigger] s.next_spec() != s,
        forall|s: Seat| #[trigger] s.partner_spec() == s.next_spec().next_spec(),
        forall|s: Seat| (#[trigger] s.partner_spec()).partner_spec() == s,
        forall|s: Seat| (#[trigger] s.next_spec()).rho_spec() == s,
        forall|s: Seat| (#[trigger] s.rho_spec()).next_spec() == s,
{
}

/// Relative to a fixed seat, the four relation classes partition the seats:
/// a seat is `Me` to itself, and a distinct seat is classified `LHO`,
/// `Partner` or `RHO` according as it is the reference's successor, partner,
/// or the remaining seat, each case excluding the others.
pub proof fn lemma_relation_partition()
    ensures
        forall|s: Seat| #[trigger] s.relation_to_spec(s) == SeatRelation::Me,
        forall|a: Seat, b: Seat| #[trigger] a.relation_to_spec(b) == SeatRelation::Me ==> a == b,
        forall|a: Seat, b: Seat|
            a != b ==> (#[trigger] a.relation_to_spec(b) == SeatRelation::LHO <==> a
                == b.next_spec()),
        forall|a: Seat, b: Seat|
            a != b ==> (#[trigger] a.relation_to_spec(b) == SeatRelation::Partner <==> a
                == b.partner_spec()),
        forall|a: Seat, b: Seat|
            a != b ==> (#[trigger] a.relation_to_spec(b) == SeatRelation::RHO <==> a
                == b.rho_spec()),
        forall|b: Seat|
            #![trigger b.next_spec(), b.partner_spec(), b.rho_spec()]
            b.next_spec() != b.partner_spec() && b.next_spec() != b.rho_spec()
                && b.partner_spec() != b.rho_spec(),
        forall|a: Seat, b: Seat|
            #![trigger a.relation_to_spec(b)]
            a == b || a == b.next_spec() || a == b.partner_spec() || a == b.rho_spec(),
{
    assert forall|a: Seat, b: Seat|
        #![trigger a.relation_to_spec(b)]
        (a != b ==> (a.relation_to_spec(b) == SeatRelation::LHO <==> a == b.next_spec())) && (a
            != b ==> (a.relation_to_spec(b) == SeatRelation::Partner <==> a == b.partner_spec()))
            && (a != b ==> (a.relation_to_spec(b) == SeatRelation::RHO <==> a == b.rho_spec())) && (
        a == b || a == b.next_spec() || a == b.partner_spec() || a == b.rho_spec()) by {
        match (a, b) {
            (Seat::North, Seat::North) => {},
            (Seat::North, Seat::East) => {},
            (Seat::North, Seat::South) => {},
            (Seat::North, Seat::West) => {},
            (Seat::East, Seat::North) => {},
            (Seat::East, Seat::East) => {},
            (Seat::East, Seat::South) => {},
            (Seat::East, Seat::West) => {},
            (Seat::South, Seat::North) => {},
            (Seat::South, Seat::East) => {},
            (Seat::South, Seat::South) => {},
            (Seat::South, Seat::West) => {},
            (Seat::West, Seat::North) => {},
            (Seat::West, Seat::East) => {},
            (Seat::West, Seat::South) => {},
            (Seat::West, Seat::West) => {},
        }
    }
    assert forall|b: Seat|
        #![trigger b.next_spec(), b.partner_spec(), b.rho_spec()]
        b.next_spec() != b.partner_spec() && b.next_spec() != b.rho_spec() && b.partner_spec()
            != b.rho_spec() by {
        match b {
            Seat::North => {},
            Seat::East => {},
            Seat::South => {},
            Seat::West => {},
        }
    }
}

/// Swapping to the opposing partnership twice returns to the start, and the
/// opponents are never one's own side; North and South sit on NS, East and
/// West on EW, and partners always share a side.
pub proof fn lemma_side_structure()
    ensures
        forall|sd: Side| (#[trigger] sd.opponents_spec()).opponents_spec() == sd,
        forall|sd: Side| #[trigger] sd.opponents_spec() != sd,
        forall|s: Seat| #[trigger] s.partner_spec().side_spec() == s.side_spec(),
        forall|s: Seat| #[trigger] s.next_spec().side_spec() == s.side_spec().opponents_spec(),
{
}

} // verus!
