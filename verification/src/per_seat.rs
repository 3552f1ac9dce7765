//! An exhaustive record with one value per seat: every seat always has a
//! value, in the canonical order North, East, South, West.
use crate::seats::Seat;
use vstd::prelude::*;

verus! {

/// One value of type `T` for each of the four seats.
#[derive(Copy, Clone, Debug, PartialEq, Eq, Hash)]
pub struct PerSeat<T> {
    pub north: T,
    pub east: T,
    pub south: T,
    pub west: T,
}

impl<T> PerSeat<T> {
    /// The value associated with `key`.
    pub open spec fn spec_get(self, key: Seat) -> T {
        match key {
            Seat::North => self.north,
            Seat::East => self.east,
            Seat::South => self.south,
            Seat::West => self.west,
        }
    }

    /// The contained values, in canonical seat order.
    pub open spec fn values(self) -> Seq<T> {
        seq![self.north, self.east, self.south, self.west]
    }
}

impl<T: Copy> PerSeat<T> {
    /// Associates the same `value` with every seat.
    pub fn new(value: T) -> (r: Self)
        ensures
            forall|k: Seat| r.spec_get(k) == value,
    {
        PerSeat { north: value, east: value, south: value, west: value }
    }
}

impl<T> PerSeat<T> {
    /// Associates with every seat a value obtained from `get_value`, invoked
    /// once per seat in canonical order.
    pub fn new_with<F: Fn() -> T>(get_value: F) -> (r: Self)
        requires
            call_requires(get_value, ()),
        ensures
            forall|k: Seat| call_ensures(get_value, (), #[trigger] r.spec_get(k)),
    {
        PerSeat { north: get_value(), east: get_value(), south: get_value(), west: get_value() }
    }

    /// Applies `f` to every value independently, keeping the seat-to-value
    /// correspondence.
    pub fn map<S, F: Fn(T) -> S>(self, f: F) -> (r: PerSeat<S>)
        requires
            forall|k: Seat| call_requires(f, (#[trigger] self.spec_get(k),)),
        ensures
            forall|k: Seat| call_ensures(f, (self.spec_get(k),), #[trigger] r.spec_get(k)),
    {
        proof {
            assert(call_requires(f, (self.spec_get(Seat::North),)));
            assert(call_requires(f, (self.spec_get(Seat::East),)));
            assert(call_requires(f, (self.spec_get(Seat::South),)));
            assert(call_requires(f, (self.spec_get(Seat::West),)));
        }
        let r = PerSeat {
            north: f(self.north),
            east: f(self.east),
            south: f(self.south),
            west: f(self.west),
        };
        proof {
            assert forall|k: Seat| call_ensures(f, (self.spec_get(k),), #[trigger] r.spec_get(k)) by {
                match k {
                    Seat::North => {},
                    Seat::East => {},
                    Seat::South => {},
                    Seat::West => {},
                }
            }
        }
        r
    }

    /// Like [`Self::map`], but `f` also receives the seat each value is
    /// associated with.
    pub fn map_with_seat<S, F: Fn(Seat, T) -> S>(self, f: F) -> (r: PerSeat<S>)
        requires
            forall|k: Seat| call_requires(f, (k, #[trigger] self.spec_get(k))),
        ensures
            forall|k: Seat| call_ensures(f, (k, self.spec_get(k)), #[trigger] r.spec_get(k)),
    {
        proof {
            assert(call_requires(f, (Seat::North, self.spec_get(Seat::North))));
            assert(call_requires(f, (Seat::East, self.spec_get(Seat::East))));
            assert(call_requires(f, (Seat::South, self.spec_get(Seat::South))));
            assert(call_requires(f, (Seat::West, self.spec_get(Seat::West))));
        }
        let r = PerSeat {
            north: f(Seat::North, self.north),
            east: f(Seat::East, self.east),
            south: f(Seat::South, self.south),
            west: f(Seat::West, self.west),
        };
        proof {
            assert forall|k: Seat|
                call_ensures(f, (k, self.spec_get(k)), #[trigger] r.spec_get(k)) by {
                match k {
                    Seat::North => {},
                    Seat::East => {},
                    Seat::South => {},
                    Seat::West => {},
                }
            }
        }
        r
    }

    /// A fresh iterator over the contained values in canonical seat order.
    pub fn iter<'a>(&'a self) -> (r: PerSeatIter<'a, T>)
        ensures
            r.remaining() == self.values(),
    {
        PerSeatIter { source: self, index: Some(Seat::North) }
    }

    /// A reference to the value associated with `key`.
    pub fn get(&self, key: Seat) -> (r: &T)
        ensures
            *r == self.spec_get(key),
    {
        match key {
            Seat::North => &self.north,
            Seat::East => &self.east,
            Seat::South => &self.south,
            Seat::West => &self.west,
        }
    }

    /// Replaces the value associated with `key`, leaving the other seats'
    /// values unchanged.
    pub fn set(&mut self, key: Seat, value: T)
        ensures
            final (self).spec_get(key) == value,
            forall|k: Seat| k != key ==> final (self).spec_get(k) == old(self).spec_get(k),
    {
        match key {
            Seat::North => self.north = value,
            Seat::East => self.east = value,
            Seat::South => self.south = value,
            Seat::West => self.west = value,
        }
    }
}

/// An iterator over the values of a [`PerSeat`], in canonical seat order;
/// `index` is the seat whose value comes next, or `None` when exhausted.
pub struct PerSeatIter<'a, T> {
    source: &'a PerSeat<T>,
    index: Option<Seat>,
}

impl<'a, T> PerSeatIter<'a, T> {
    /// The values not yet produced, in canonical seat order.
    pub closed spec fn remaining(self) -> Seq<T> {
        match self.index {
            Some(Seat::North) => self.source.values(),
            Some(Seat::East) => self.source.values().drop_first(),
            Some(Seat::South) => seq![self.source.south, self.source.west],
            Some(Seat::West) => seq![self.source.west],
            None => Seq::empty(),
        }
    }

    /// Produces a reference to the next value in canonical seat order, or
    /// `None` when every value has been produced.
    pub fn next(&mut self) -> (r: Option<&'a T>)
        ensures
            match r {
                None => old(self).remaining().len() == 0 && final (self).remaining() == old(
                    self,
                ).remaining(),
                Some(v) => old(self).remaining().len() > 0 && *v == old(self).remaining()[0]
                    && final (self).remaining() == old(self).remaining().drop_first(),
            },
    {
        proof {
            assert(self.source.values().drop_first() =~= seq![
                self.source.east,
                self.source.south,
                self.source.west,
            ]);
            assert(seq![self.source.east, self.source.south, self.source.west].drop_first() =~= seq![
                self.source.south,
                self.source.west,
            ]);
            assert(seq![self.source.south, self.source.west].drop_first() =~= seq![
                self.source.west,
            ]);
            assert(seq![self.source.west].drop_first() =~= Seq::<T>::empty());
        }
        match self.index {
            Some(Seat::North) => {
                self.index = Some(Seat::East);
                Some(&self.source.north)
            },
            Some(Seat::East) => {
                self.index = Some(Seat::South);
                Some(&self.source.east)
            },
            Some(Seat::South) => {
                self.index = Some(Seat::West);
                Some(&self.source.south)
            },
            Some(Seat::West) => {
                self.index = None;
                Some(&self.source.west)
            },
            None => None,
        }
    }
}

} // verus!
