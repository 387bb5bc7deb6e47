use vstd::prelude::*;

verus! {

/// Values that have a zero element.
pub trait Zero: Sized {
    spec fn spec_zero() -> Self;

    fn zero() -> (z: Self)
        ensures
            z == Self::spec_zero(),
    ;
}

impl Zero for i32 {
    open spec fn spec_zero() -> i32 {
        0
    }

    fn zero() -> (z: i32) {
        0
    }
}

/// A unit of measurement: an absolute part in pixels and a part relative to a reference.
#[derive(Debug, Clone, Copy, PartialEq)]
pub struct Unit<T> {
    pub px: T,
    pub rel: T,
}

impl<T> Unit<T> {
    pub fn new(px: T, rel: T) -> (u: Self)
        ensures
            u.px == px,
            u.rel == rel,
    {
        Self { px, rel }
    }
}

impl<T: Zero> Unit<T> {
    /// The zero unit.
    pub fn zero() -> (u: Self)
        ensures
            u.px == T::spec_zero(),
            u.rel == T::spec_zero(),
    {
        Self { px: T::zero(), rel: T::zero() }
    }

    /// An absolute unit.
    pub fn px(px: T) -> (u: Self)
        ensures
            u.px == px,
            u.rel == T::spec_zero(),
    {
        Self { px, rel: T::zero() }
    }

    /// A unit relative to the reference.
    pub fn rel(rel: T) -> (u: Self)
        ensures
            u.px == T::spec_zero(),
            u.rel == rel,
    {
        Self { px: T::zero(), rel }
    }
}

impl<T: Zero> Default for Unit<T> {
    fn default() -> (u: Self)
        ensures
            u.px == T::spec_zero(),
            u.rel == T::spec_zero(),
    {
        Self::zero()
    }
}

impl Unit<i32> {
    pub open spec fn spec_resolve(self, reference: i32) -> int {
        self.px + self.rel * reference
    }

    pub fn resolve(&self, reference: i32) -> (r: i32)
        requires
            i32::MIN <= self.rel * reference <= i32::MAX,
            i32::MIN <= self.px + self.rel * reference <= i32::MAX,
        ensures
            r == self.spec_resolve(reference),
    {
        self.px + self.rel * reference
    }
}

/// Units add part by part.
impl std::ops::Add for Unit<i32> {
    type Output = Self;

    fn add(self, rhs: Self) -> (u: Self) {
        Self { px: self.px + rhs.px, rel: self.rel + rhs.rel }
    }
}

impl vstd::std_specs::ops::AddSpecImpl for Unit<i32> {
    open spec fn obeys_add_spec() -> bool {
        true
    }

    open spec fn add_req(self, rhs: Self) -> bool {
        i32::MIN <= self.px + rhs.px <= i32::MAX && i32::MIN <= self.rel + rhs.rel <= i32::MAX
    }

    open spec fn add_spec(self, rhs: Self) -> Self {
        Unit { px: (self.px + rhs.px) as i32, rel: (self.rel + rhs.rel) as i32 }
    }
}

/// Units subtract part by part.
impl std::ops::Sub for Unit<i32> {
    type Output = Self;

    fn sub(self, rhs: Self) -> (u: Self) {
        Self { px: self.px - rhs.px, rel: self.rel - rhs.rel }
    }
}

impl vstd::std_specs::ops::SubSpecImpl for Unit<i32> {
    open spec fn obeys_sub_spec() -> bool {
        true
    }

    open spec fn sub_req(self, rhs: Self) -> bool {
        i32::MIN <= self.px - rhs.px <= i32::MAX && i32::MIN <= self.rel - rhs.rel <= i32::MAX
    }

    open spec fn sub_spec(self, rhs: Self) -> Self {
        Unit { px: (self.px - rhs.px) as i32, rel: (self.rel - rhs.rel) as i32 }
    }
}

impl Unit<i32> {
    /// Adds `rhs` to the unit in place, part by part.
    pub fn add_assign(&mut self, rhs: Self)
        requires
            i32::MIN <= old(self).px + rhs.px <= i32::MAX,
            i32::MIN <= old(self).rel + rhs.rel <= i32::MAX,
        ensures
            final(self).px == old(self).px + rhs.px,
            final(self).rel == old(self).rel + rhs.rel,
    {
        self.px = self.px + rhs.px;
        self.rel = self.rel + rhs.rel;
    }

    /// Subtracts `rhs` from the unit in place, part by part.
    pub fn sub_assign(&mut self, rhs: Self)
        requires
            i32::MIN <= old(self).px - rhs.px <= i32::MAX,
            i32::MIN <= old(self).rel - rhs.rel <= i32::MAX,
        ensures
            final(self).px == old(self).px - rhs.px,
            final(self).rel == old(self).rel - rhs.rel,
    {
        self.px = self.px - rhs.px;
        self.rel = self.rel - rhs.rel;
    }

}

} // verus!
