//! An exhaustive record with one value per strain: every strain always has a
//! value, in the canonical order NoTrump, Spades, Hearts, Diamonds, Clubs.
use crate::suits::Strain;
use crate::suits::Suit;
use vstd::prelude::*;

verus! {

/// One value of type `T` for each of the five strains.
#[derive(Copy, Clone, Debug, PartialEq, Eq, Hash)]
pub struct PerStrain<T> {
    pub notrump: T,
    pub spades: T,
    pub hearts: T,
    pub diamonds: T,
    pub clubs: T,
}

impl<T> PerStrain<T> {
    /// The value associated with `key`.
    pub open spec fn spec_get(self, key: Strain) -> T {
        match key {
            Strain::NoTrump => self.notrump,
            Strain::Suit(Suit::Spades) => self.spades,
            Strain::Suit(Suit::Hearts) => self.hearts,
            Strain::Suit(Suit::Diamonds) => self.diamonds,
            Strain::Suit(Suit::Clubs) => self.clubs,
        }
    }
}

impl<T: Copy> PerStrain<T> {
    /// Associates the same `value` with every strain.
    pub fn new(value: T) -> (r: Self)
        ensures
            forall|k: Strain| r.spec_get(k) == value,
    {
        PerStrain {
            notrump: value,
            spades: value,
            hearts: value,
            diamonds: value,
            clubs: value,
        }
    }
}

impl<T> PerStrain<T> {
    /// A reference to the value associated with `key`.
    pub fn get(&self, key: Strain) -> (r: &T)
        ensures
            *r == self.spec_get(key),
    {
        match key {
            Strain::NoTrump => &self.notrump,
            Strain::Suit(Suit::Spades) => &self.spades,
            Strain::Suit(Suit::Hearts) => &self.hearts,
            Strain::Suit(Suit::Diamonds) => &self.diamonds,
            Strain::Suit(Suit::Clubs) => &self.clubs,
        }
    }

    /// Replaces the value associated with `key`, leaving the other strains'
    /// values unchanged.
    pub fn set(&mut self, key: Strain, value: T)
        ensures
            final (self).spec_get(key) == value,
            forall|k: Strain| k != key ==> final (self).spec_get(k) == old(self).spec_get(k),
    {
        match key {
            Strain::NoTrump => self.notrump = value,
            Strain::Suit(Suit::Spades) => self.spades = value,
            Strain::Suit(Suit::Hearts) => self.hearts = value,
            Strain::Suit(Suit::Diamonds) => self.diamonds = value,
            Strain::Suit(Suit::Clubs) => self.clubs = value,
        }
    }
}

} // verus!
