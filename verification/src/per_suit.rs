//! An exhaustive record with one value per suit: every suit always has a
//! value, in the canonical order Spades, Hearts, Diamonds, Clubs.
use crate::suits::Suit;
use vstd::prelude::*;
use vstd::std_specs::ops::AddSpec;

verus! {

/// One value of type `T` for each of the four suits.
#[derive(Copy, Clone, Debug, PartialEq, Eq, Hash)]
pub struct PerSuit<T> {
    pub spades: T,
    pub hearts: T,
    pub diamonds: T,
    pub clubs: T,
}

impl<T> PerSuit<T> {
    /// The value associated with `key`.
    pub open spec fn spec_get(self, key: Suit) -> T {
        match key {
            Suit::Spades => self.spades,
            Suit::Hearts => self.hearts,
            Suit::Diamonds => self.diamonds,
            Suit::Clubs => self.clubs,
        }
    }

    /// The contained values, in canonical suit order.
    pub open spec fn values(self) -> Seq<T> {
        seq![self.spades, self.hearts, self.diamonds, self.clubs]
    }
}

impl<T: Copy> PerSuit<T> {
    /// Associates the same `value` with every suit.
    pub fn new(value: T) -> (r: Self)
        ensures
            forall|k: Suit| r.spec_get(k) == value,
    {
        PerSuit { spades: value, hearts: value, diamonds: value, clubs: value }
    }
}

impl<T> PerSuit<T> {
    /// Associates with every suit a value obtained from `get_value`, invoked
    /// once per suit in canonical order.
    pub fn new_with<F: Fn() -> T>(get_value: F) -> (r: Self)
        requires
            call_requires(get_value, ()),
        ensures
            forall|k: Suit| call_ensures(get_value, (), #[trigger] r.spec_get(k)),
    {
        PerSuit {
            spades: get_value(),
            hearts: get_value(),
            diamonds: get_value(),
            clubs: get_value(),
        }
    }

    /// Applies `f` to every value independently, keeping the suit-to-value
    /// correspondence.
    pub fn map<S, F: Fn(T) -> S>(self, f: F) -> (r: PerSuit<S>)
        requires
            forall|k: Suit| call_requires(f, (#[trigger] self.spec_get(k),)),
        ensures
            forall|k: Suit| call_ensures(f, (self.spec_get(k),), #[trigger] r.spec_get(k)),
    {
        proof {
            assert(call_requires(f, (self.spec_get(Suit::Spades),)));
            assert(call_requires(f, (self.spec_get(Suit::Hearts),)));
            assert(call_requires(f, (self.spec_get(Suit::Diamonds),)));
            assert(call_requires(f, (self.spec_get(Suit::Clubs),)));
        }
        let r = PerSuit {
            spades: f(self.spades),
            hearts: f(self.hearts),
            diamonds: f(self.diamonds),
            clubs: f(self.clubs),
        };
        proof {
            assert forall|k: Suit| call_ensures(f, (self.spec_get(k),), #[trigger] r.spec_get(k)) by {
                match k {
                    Suit::Spades => {},
                    Suit::Hearts => {},
                    Suit::Diamonds => {},
                    Suit::Clubs => {},
                }
            }
        }
        r
    }

    /// Like [`Self::map`], but `f` also receives the suit each value is
    /// associated with.
    pub fn map_with_suit<S, F: Fn(Suit, T) -> S>(self, f: F) -> (r: PerSuit<S>)
        requires
            forall|k: Suit| call_requires(f, (k, #[trigger] self.spec_get(k))),
        ensures
            forall|k: Suit| call_ensures(f, (k, self.spec_get(k)), #[trigger] r.spec_get(k)),
    {
        proof {
            assert(call_requires(f, (Suit::Spades, self.spec_get(Suit::Spades))));
            assert(call_requires(f, (Suit::Hearts, self.spec_get(Suit::Hearts))));
            assert(call_requires(f, (Suit::Diamonds, self.spec_get(Suit::Diamonds))));
            assert(call_requires(f, (Suit::Clubs, self.spec_get(Suit::Clubs))));
        }
        let r = PerSuit {
            spades: f(Suit::Spades, self.spades),
            hearts: f(Suit::Hearts, self.hearts),
            diamonds: f(Suit::Diamonds, self.diamonds),
            clubs: f(Suit::Clubs, self.clubs),
        };
        proof {
            assert forall|k: Suit|
                call_ensures(f, (k, self.spec_get(k)), #[trigger] r.spec_get(k)) by {
                match k {
                    Suit::Spades => {},
                    Suit::Hearts => {},
                    Suit::Diamonds => {},
                    Suit::Clubs => {},
                }
            }
        }
        r
    }

    /// A fresh iterator over the contained values in canonical suit order.
    pub fn iter<'a>(&'a self) -> (r: PerSuitIter<'a, T>)
        ensures
            r.remaining() == self.values(),
    {
        PerSuitIter { source: self, index: Some(Suit::Spades) }
    }

    /// A reference to the value associated with `key`.
    pub fn get(&self, key: Suit) -> (r: &T)
        ensures
            *r == self.spec_get(key),
    {
        match key {
            Suit::Spades => &self.spades,
            Suit::Hearts => &self.hearts,
            Suit::Diamonds => &self.diamonds,
            Suit::Clubs => &self.clubs,
        }
    }

    /// Replaces the value associated with `key`, leaving the other suits'
    /// values unchanged.
    pub fn set(&mut self, key: Suit, value: T)
        ensures
            final (self).spec_get(key) == value,
            forall|k: Suit| k != key ==> final (self).spec_get(k) == old(self).spec_get(k),
    {
        match key {
            Suit::Spades => self.spades = value,
            Suit::Hearts => self.hearts = value,
            Suit::Diamonds => self.diamonds = value,
            Suit::Clubs => self.clubs = value,
        }
    }
}

impl<T: core::ops::Add<T, Output = T>> PerSuit<T> {
    /// Folds the four values with addition, left to right in canonical suit
    /// order.
    pub fn sum(self) -> (r: T)
        requires
            T::obeys_add_spec(),
            self.spades.add_req(self.hearts),
            self.spades.add_spec(self.hearts).add_req(self.diamonds),
            self.spades.add_spec(self.hearts).add_spec(self.diamonds).add_req(self.clubs),
        ensures
            r == self.spades.add_spec(self.hearts).add_spec(self.diamonds).add_spec(self.clubs),
    {
        self.spades + self.hearts + self.diamonds + self.clubs
    }
}

/// An iterator over the values of a [`PerSuit`], in canonical suit order;
/// `index` is the suit whose value comes next, or `None` when exhausted.
pub struct PerSuitIter<'a, T> {
    source: &'a PerSuit<T>,
    index: Option<Suit>,
}

impl<'a, T> PerSuitIter<'a, T> {
    /// The values not yet produced, in canonical suit order.
    pub closed spec fn remaining(self) -> Seq<T> {
        match self.index {
            Some(Suit::Spades) => self.source.values(),
            Some(Suit::Hearts) => self.source.values().drop_first(),
            Some(Suit::Diamonds) => seq![self.source.diamonds, self.source.clubs],
            Some(Suit::Clubs) => seq![self.source.clubs],
            None => Seq::empty(),
        }
    }

    /// Produces a reference to the next value in canonical suit order, or
    /// `None` when every value has been produced.
    pub fn next(&mut self) -> (r: Option<&'a T>)
        ensures
            match r {
                None => old(self).remaining().len() == 0 && final (self).remaining() == old(
                    self,
                ).remaining(),
                Some(v) => old(self).remaining().len() > 0 && *v == old(self).remaining()[0]
                    && final (self).remaining() == old(self).remaining().drop_first(),
            },
    {
        proof {
            assert(self.source.values().drop_first() =~= seq![
                self.source.hearts,
                self.source.diamonds,
                self.source.clubs,
            ]);
            assert(seq![self.source.hearts, self.source.diamonds, self.source.clubs].drop_first()
                =~= seq![self.source.diamonds, self.source.clubs]);
            assert(seq![self.source.diamonds, self.source.clubs].drop_first() =~= seq![
                self.source.clubs,
            ]);
            assert(seq![self.source.clubs].drop_first() =~= Seq::<T>::empty());
        }
        match self.index {
            Some(Suit::Spades) => {
                self.index = Some(Suit::Hearts);
                Some(&self.source.spades)
            },
            Some(Suit::Hearts) => {
                self.index = Some(Suit::Diamonds);
                Some(&self.source.hearts)
            },
            Some(Suit::Diamonds) => {
                self.index = Some(Suit::Clubs);
                Some(&self.source.diamonds)
            },
            Some(Suit::Clubs) => {
                self.index = None;
                Some(&self.source.clubs)
            },
            None => None,
        }
    }
}

} // verus!
