//! An exhaustive record with one value per partnership side: both sides
//! always have a value, in the canonical order NS, EW.
use crate::seats::Side;
use vstd::prelude::*;

verus! {

/// One value of type `T` for each of the two partnership sides.
#[derive(Copy, Clone, Debug, PartialEq, Eq, Hash)]
pub struct PerSide<T> {
    pub ns: T,
    pub ew: T,
}

impl<T> PerSide<T> {
    /// The value associated with `key`.
    pub open spec fn spec_get(self, key: Side) -> T {
        match key {
            Side::NS => self.ns,
            Side::EW => self.ew,
        }
    }
}

impl<T: Copy> PerSide<T> {
    /// Associates the same `value` with both sides.
    pub fn new(value: T) -> (r: Self)
        ensures
            forall|k: Side| r.spec_get(k) == value,
    {
        PerSide { ns: value, ew: value }
    }
}

impl<T> PerSide<T> {
    /// Applies `f` to both values independently, keeping the side-to-value
    /// correspondence.
    pub fn map<S, F: Fn(T) -> S>(self, f: F) -> (r: PerSide<S>)
        requires
            forall|k: Side| call_requires(f, (#[trigger] self.spec_get(k),)),
        ensures
            forall|k: Side| call_ensures(f, (self.spec_get(k),), #[trigger] r.spec_get(k)),
    {
        proof {
            assert(call_requires(f, (self.spec_get(Side::NS),)));
            assert(call_requires(f, (self.spec_get(Side::EW),)));
        }
        let r = PerSide { ns: f(self.ns), ew: f(self.ew) };
        proof {
            assert forall|k: Side| call_ensures(f, (self.spec_get(k),), #[trigger] r.spec_get(k)) by {
                match k {
                    Side::NS => {},
                    Side::EW => {},
                }
            }
        }
        r
    }

    /// A reference to the value associated with `key`.
    pub fn get(&self, key: Side) -> (r: &T)
        ensures
            *r == self.spec_get(key),
    {
        match key {
            Side::NS => &self.ns,
            Side::EW => &self.ew,
        }
    }

    /// Replaces the value associated with `key`, leaving the other side's
    /// value unchanged.
    pub fn set(&mut self, key: Side, value: T)
        ensures
            final (self).spec_get(key) == value,
            forall|k: Side| k != key ==> final (self).spec_get(k) == old(self).spec_get(k),
    {
        match key {
            Side::NS => self.ns = value,
            Side::EW => self.ew = value,
        }
    }
}

} // verus!
