use vstd::prelude::*;

verus! {

/// A type with an associative way of combining two values.
pub trait SemiGroup: Sized {
    /// What `plus` computes.
    spec fn combine(&self, another: &Self) -> Self;

    /// Combining is associative.
    proof fn lemma_combine_associative(a: &Self, b: &Self, c: &Self)
        ensures
            a.combine(b).combine(c) == a.combine(&b.combine(c)),
    ;

    fn plus(&self, another: &Self) -> (r: Self)
        ensures
            r == self.combine(another),
    ;
}

/// A semigroup with a neutral element.
pub trait Monoid: SemiGroup {
    /// What `zero` returns.
    spec fn unit() -> Self;

    /// Combining with the neutral element changes nothing.
    proof fn lemma_unit_neutral(a: &Self)
        ensures
            Self::unit().combine(a) == *a,
            a.combine(&Self::unit()) == *a,
    ;

    fn zero() -> (r: Self)
        ensures
            r == Self::unit(),
    ;
}

/// The monoid obtained from a semigroup by adding a neutral element `Zero`.
pub enum FreeMonoid<T: SemiGroup> {
    Zero,
    Value(T),
}

impl<T: SemiGroup + Copy> SemiGroup for FreeMonoid<T> {
    open spec fn combine(&self, another: &Self) -> Self {
        match (*self, *another) {
            (FreeMonoid::Zero, FreeMonoid::Zero) => FreeMonoid::Zero,
            (FreeMonoid::Zero, FreeMonoid::Value(v)) => FreeMonoid::Value(v),
            (FreeMonoid::Value(u), FreeMonoid::Zero) => FreeMonoid::Value(u),
            (FreeMonoid::Value(u), FreeMonoid::Value(v)) => FreeMonoid::Value(u.combine(&v)),
        }
    }

    proof fn lemma_combine_associative(a: &Self, b: &Self, c: &Self) {
        match (*a, *b, *c) {
            (FreeMonoid::Value(u), FreeMonoid::Value(v), FreeMonoid::Value(w)) => {
                T::lemma_combine_associative(&u, &v, &w);
            },
            _ => {},
        }
    }

    fn plus(&self, another: &Self) -> (r: Self) {
        match (self, another) {
            (FreeMonoid::Zero, FreeMonoid::Zero) => FreeMonoid::Zero,
            (FreeMonoid::Zero, FreeMonoid::Value(v)) => FreeMonoid::Value(*v),
            (FreeMonoid::Value(u), FreeMonoid::Zero) => FreeMonoid::Value(*u),
            (FreeMonoid::Value(u), FreeMonoid::Value(v)) => FreeMonoid::Value(u.plus(v)),
        }
    }
}

impl<T: SemiGroup + Copy> Monoid for FreeMonoid<T> {
    open spec fn unit() -> Self {
        FreeMonoid::Zero
    }

    proof fn lemma_unit_neutral(a: &Self) {
    }

    fn zero() -> (r: Self) {
        FreeMonoid::Zero
    }
}

impl<T: SemiGroup> FreeMonoid<T> {
    /// The value inside, or `None` for `Zero`.
    pub fn get(&self) -> (r: Option<&T>)
        ensures
            match *self {
                FreeMonoid::Zero => r is None,
                FreeMonoid::Value(x) => r == Some(&x),
            },
    {
        match self {
            FreeMonoid::Zero => None,
            FreeMonoid::Value(x) => Some(x),
        }
    }
}

} // verus!
