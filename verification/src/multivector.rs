//! Multivectors of three-dimensional geometric algebra whose components may be
//! absent at the type level, so that products of sparse multivectors cost nothing
//! for the components that are not there.

use std::ops::{Add, Mul, Neg};
use vstd::prelude::*;
use vstd::std_specs::ops::{AddSpec, AddSpecImpl, MulSpec, MulSpecImpl, NegSpec, NegSpecImpl};

verus! {

/// A component that is there.
#[derive(Copy, Clone, Debug, Hash, PartialEq)]
pub struct Just<T>(pub T);

/// A component that is absent: it counts as zero and takes no room.
#[derive(Copy, Clone, Debug, Hash, PartialEq)]
pub struct Nil();

impl<T: Add> Add for Just<T> {
    type Output = Just<<T as Add>::Output>;

    fn add(self, rhs: Self) -> Self::Output {
        Just(self.0 + rhs.0)
    }
}

impl<T: Add> AddSpecImpl for Just<T> {
    open spec fn obeys_add_spec() -> bool {
        <T as AddSpec>::obeys_add_spec()
    }

    open spec fn add_req(self, rhs: Self) -> bool {
        self.0.add_req(rhs.0)
    }

    open spec fn add_spec(self, rhs: Self) -> Self::Output {
        Just(self.0.add_spec(rhs.0))
    }
}

impl<T> Add<Nil> for Just<T> {
    type Output = Self;

    fn add(self, _rhs: Nil) -> Self::Output {
        self
    }
}

impl<T> AddSpecImpl<Nil> for Just<T> {
    open spec fn obeys_add_spec() -> bool {
        true
    }

    open spec fn add_req(self, rhs: Nil) -> bool {
        true
    }

    open spec fn add_spec(self, rhs: Nil) -> Self::Output {
        self
    }
}

impl Add for Nil {
    type Output = Nil;

    fn add(self, _rhs: Nil) -> Self::Output {
        Nil()
    }
}

impl AddSpecImpl for Nil {
    open spec fn obeys_add_spec() -> bool {
        true
    }

    open spec fn add_req(self, rhs: Nil) -> bool {
        true
    }

    open spec fn add_spec(self, rhs: Nil) -> Self::Output {
        Nil()
    }
}

impl<T> Add<Just<T>> for Nil {
    type Output = Just<T>;

    fn add(self, rhs: Just<T>) -> Self::Output {
        rhs
    }
}

impl<T> AddSpecImpl<Just<T>> for Nil {
    open spec fn obeys_add_spec() -> bool {
        true
    }

    open spec fn add_req(self, rhs: Just<T>) -> bool {
        true
    }

    open spec fn add_spec(self, rhs: Just<T>) -> Self::Output {
        rhs
    }
}

impl<T: Mul> Mul for Just<T> {
    type Output = Just<<T as Mul>::Output>;

    fn mul(self, rhs: Self) -> Self::Output {
        Just(self.0 * rhs.0)
    }
}

impl<T: Mul> MulSpecImpl for Just<T> {
    open spec fn obeys_mul_spec() -> bool {
        <T as MulSpec>::obeys_mul_spec()
    }

    open spec fn mul_req(self, rhs: Self) -> bool {
        self.0.mul_req(rhs.0)
    }

    open spec fn mul_spec(self, rhs: Self) -> Self::Output {
        Just(self.0.mul_spec(rhs.0))
    }
}

impl<T> Mul<Nil> for Just<T> {
    type Output = Nil;

    fn mul(self, _rhs: Nil) -> Self::Output {
        Nil()
    }
}

impl<T> MulSpecImpl<Nil> for Just<T> {
    open spec fn obeys_mul_spec() -> bool {
        true
    }

    open spec fn mul_req(self, rhs: Nil) -> bool {
        true
    }

    open spec fn mul_spec(self, rhs: Nil) -> Self::Output {
        Nil()
    }
}

impl Mul for Nil {
    type Output = Nil;

    fn mul(self, _rhs: Nil) -> Self::Output {
        Nil()
    }
}

impl MulSpecImpl for Nil {
    open spec fn obeys_mul_spec() -> bool {
        true
    }

    open spec fn mul_req(self, rhs: Nil) -> bool {
        true
    }

    open spec fn mul_spec(self, rhs: Nil) -> Self::Output {
        Nil()
    }
}

impl<T> Mul<Just<T>> for Nil {
    type Output = Nil;

    fn mul(self, _rhs: Just<T>) -> Self::Output {
        Nil()
    }
}

impl<T> MulSpecImpl<Just<T>> for Nil {
    open spec fn obeys_mul_spec() -> bool {
        true
    }

    open spec fn mul_req(self, rhs: Just<T>) -> bool {
        true
    }

    open spec fn mul_spec(self, rhs: Just<T>) -> Self::Output {
        Nil()
    }
}

impl Neg for Nil {
    type Output = Nil;

    fn neg(self) -> Self::Output {
        Nil()
    }
}

impl NegSpecImpl for Nil {
    open spec fn obeys_neg_spec() -> bool {
        true
    }

    open spec fn neg_req(self) -> bool {
        true
    }

    open spec fn neg_spec(self) -> Self::Output {
        Nil()
    }
}

impl<T: Neg> Neg for Just<T> {
    type Output = Just<<T as Neg>::Output>;

    fn neg(self) -> Self::Output {
        Just(self.0.neg())
    }
}

impl<T: Neg> NegSpecImpl for Just<T> {
    open spec fn obeys_neg_spec() -> bool {
        <T as NegSpec>::obeys_neg_spec()
    }

    open spec fn neg_req(self) -> bool {
        self.0.neg_req()
    }

    open spec fn neg_spec(self) -> Self::Output {
        Just(self.0.neg_spec())
    }
}

/// A multivector: one component for the scalar, for each of the three vectors,
/// for each of the three bivectors and for the trivector.
#[derive(Debug, Clone, Hash, Eq, PartialEq, Ord, PartialOrd)]
pub struct Multivector3<E, E1, E2, E3, E12, E31, E23, E123> {
    pub e: E,
    pub e1: E1,
    pub e2: E2,
    pub e3: E3,
    pub e12: E12,
    pub e31: E31,
    pub e23: E23,
    pub e123: E123,
}

/// The sum of the components of a tuple, taken from the left.
pub trait VecSum: Sized {
    type Output;

    spec fn obeys_sum_spec() -> bool;

    spec fn sum_req(self) -> bool;

    spec fn sum_spec(self) -> Self::Output;

    fn value(self) -> (r: Self::Output)
        requires
            self.sum_req(),
        ensures
            Self::obeys_sum_spec() ==> r == self.sum_spec(),
    ;
}

impl<A1, A2> VecSum for (A1, A2) where A1: Add<A2> {
    type Output = <A1 as Add<A2>>::Output;

    open spec fn obeys_sum_spec() -> bool {
        <A1 as AddSpec<A2>>::obeys_add_spec()
    }

    open spec fn sum_req(self) -> bool {
        self.0.add_req(self.1)
    }

    open spec fn sum_spec(self) -> Self::Output {
        self.0.add_spec(self.1)
    }

    fn value(self) -> Self::Output {
        let (a1, a2) = self;
        a1 + a2
    }
}

impl<A1, A2, A3> VecSum for (A1, A2, A3) where
    (A1, A2): VecSum,
    <(A1, A2) as VecSum>::Output: Add<A3>,
{
    type Output = <<(A1, A2) as VecSum>::Output as Add<A3>>::Output;

    open spec fn obeys_sum_spec() -> bool {
        &&& <(A1, A2) as VecSum>::obeys_sum_spec()
        &&& <<(A1, A2) as VecSum>::Output as AddSpec<A3>>::obeys_add_spec()
    }

    open spec fn sum_req(self) -> bool {
        &&& <(A1, A2) as VecSum>::obeys_sum_spec()
        &&& (self.0, self.1).sum_req()
        &&& (self.0, self.1).sum_spec().add_req(self.2)
    }

    open spec fn sum_spec(self) -> Self::Output {
        (self.0, self.1).sum_spec().add_spec(self.2)
    }

    fn value(self) -> Self::Output {
        let (a1, a2, a3) = self;
        (a1, a2).value() + a3
    }
}

impl<A1, A2, A3, A4> VecSum for (A1, A2, A3, A4) where
    (A1, A2, A3): VecSum,
    <(A1, A2, A3) as VecSum>::Output: Add<A4>,
{
    type Output = <<(A1, A2, A3) as VecSum>::Output as Add<A4>>::Output;

    open spec fn obeys_sum_spec() -> bool {
        &&& <(A1, A2, A3) as VecSum>::obeys_sum_spec()
        &&& <<(A1, A2, A3) as VecSum>::Output as AddSpec<A4>>::obeys_add_spec()
    }

    open spec fn sum_req(self) -> bool {
        &&& <(A1, A2, A3) as VecSum>::obeys_sum_spec()
        &&& (self.0, self.1, self.2).sum_req()
        &&& (self.0, self.1, self.2).sum_spec().add_req(self.3)
    }

    open spec fn sum_spec(self) -> Self::Output {
        (self.0, self.1, self.2).sum_spec().add_spec(self.3)
    }

    fn value(self) -> Self::Output {
        let (a1, a2, a3, a4) = self;
        (a1, a2, a3).value() + a4
    }
}

impl<A1, A2, A3, A4, A5> VecSum for (A1, A2, A3, A4, A5) where
    (A1, A2, A3, A4): VecSum,
    <(A1, A2, A3, A4) as VecSum>::Output: Add<A5>,
{
    type Output = <<(A1, A2, A3, A4) as VecSum>::Output as Add<A5>>::Output;

    open spec fn obeys_sum_spec() -> bool {
        &&& <(A1, A2, A3, A4) as VecSum>::obeys_sum_spec()
        &&& <<(A1, A2, A3, A4) as VecSum>::Output as AddSpec<A5>>::obeys_add_spec()
    }

    open spec fn sum_req(self) -> bool {
        &&& <(A1, A2, A3, A4) as VecSum>::obeys_sum_spec()
        &&& (self.0, self.1, self.2, self.3).sum_req()
        &&& (self.0, self.1, self.2, self.3).sum_spec().add_req(self.4)
    }

    open spec fn sum_spec(self) -> Self::Output {
        (self.0, self.1, self.2, self.3).sum_spec().add_spec(self.4)
    }

    fn value(self) -> Self::Output {
        let (a1, a2, a3, a4, a5) = self;
        (a1, a2, a3, a4).value() + a5
    }
}

impl<A1, A2, A3, A4, A5, A6> VecSum for (A1, A2, A3, A4, A5, A6) where
    (A1, A2, A3, A4, A5): VecSum,
    <(A1, A2, A3, A4, A5) as VecSum>::Output: Add<A6>,
{
    type Output = <<(A1, A2, A3, A4, A5) as VecSum>::Output as Add<A6>>::Output;

    open spec fn obeys_sum_spec() -> bool {
        &&& <(A1, A2, A3, A4, A5) as VecSum>::obeys_sum_spec()
        &&& <<(A1, A2, A3, A4, A5) as VecSum>::Output as AddSpec<A6>>::obeys_add_spec()
    }

    open spec fn sum_req(self) -> bool {
        &&& <(A1, A2, A3, A4, A5) as VecSum>::obeys_sum_spec()
        &&& (self.0, self.1, self.2, self.3, self.4).sum_req()
        &&& (self.0, self.1, self.2, self.3, self.4).sum_spec().add_req(self.5)
    }

    open spec fn sum_spec(self) -> Self::Output {
        (self.0, self.1, self.2, self.3, self.4).sum_spec().add_spec(self.5)
    }

    fn value(self) -> Self::Output {
        let (a1, a2, a3, a4, a5, a6) = self;
        (a1, a2, a3, a4, a5).value() + a6
    }
}

impl<A1, A2, A3, A4, A5, A6, A7> VecSum for (A1, A2, A3, A4, A5, A6, A7) where
    (A1, A2, A3, A4, A5, A6): VecSum,
    <(A1, A2, A3, A4, A5, A6) as VecSum>::Output: Add<A7>,
{
    type Output = <<(A1, A2, A3, A4, A5, A6) as VecSum>::Output as Add<A7>>::Output;

    open spec fn obeys_sum_spec() -> bool {
        &&& <(A1, A2, A3, A4, A5, A6) as VecSum>::obeys_sum_spec()
        &&& <<(A1, A2, A3, A4, A5, A6) as VecSum>::Output as AddSpec<A7>>::obeys_add_spec()
    }

    open spec fn sum_req(self) -> bool {
        &&& <(A1, A2, A3, A4, A5, A6) as VecSum>::obeys_sum_spec()
        &&& (self.0, self.1, self.2, self.3, self.4, self.5).sum_req()
        &&& (self.0, self.1, self.2, self.3, self.4, self.5).sum_spec().add_req(self.6)
    }

    open spec fn sum_spec(self) -> Self::Output {
        (self.0, self.1, self.2, self.3, self.4, self.5).sum_spec().add_spec(self.6)
    }

    fn value(self) -> Self::Output {
        let (a1, a2, a3, a4, a5, a6, a7) = self;
        (a1, a2, a3, a4, a5, a6).value() + a7
    }
}

impl<A1, A2, A3, A4, A5, A6, A7, A8> VecSum for (A1, A2, A3, A4, A5, A6, A7, A8) where
    (A1, A2, A3, A4, A5, A6, A7): VecSum,
    <(A1, A2, A3, A4, A5, A6, A7) as VecSum>::Output: Add<A8>,
{
    type Output = <<(A1, A2, A3, A4, A5, A6, A7) as VecSum>::Output as Add<A8>>::Output;

    open spec fn obeys_sum_spec() -> bool {
        &&& <(A1, A2, A3, A4, A5, A6, A7) as VecSum>::obeys_sum_spec()
        &&& <<(A1, A2, A3, A4, A5, A6, A7) as VecSum>::Output as AddSpec<A8>>::obeys_add_spec()
    }

    open spec fn sum_req(self) -> bool {
        &&& <(A1, A2, A3, A4, A5, A6, A7) as VecSum>::obeys_sum_spec()
        &&& (self.0, self.1, self.2, self.3, self.4, self.5, self.6).sum_req()
        &&& (self.0, self.1, self.2, self.3, self.4, self.5, self.6).sum_spec().add_req(self.7)
    }

    open spec fn sum_spec(self) -> Self::Output {
        (self.0, self.1, self.2, self.3, self.4, self.5, self.6).sum_spec().add_spec(self.7)
    }

    fn value(self) -> Self::Output {
        let (a1, a2, a3, a4, a5, a6, a7, a8) = self;
        (a1, a2, a3, a4, a5, a6, a7).value() + a8
    }
}

/// A multiple of the scalar unit, as the left factor of a product.
pub struct Se<T>(pub T);

impl<T: Copy, E: Copy, E1: Copy, E2: Copy, E3: Copy, E12: Copy, E31: Copy, E23: Copy, E123: Copy> Mul<&Multivector3<E, E1, E2, E3, E12, E31, E23, E123>> for Se<T> where
    T: Mul<E> + Mul<E1> + Mul<E2> + Mul<E3> + Mul<E12> + Mul<E31> + Mul<E23> + Mul<E123>,
{
    type Output = Multivector3<
        <T as Mul<E>>::Output,
        <T as Mul<E1>>::Output,
        <T as Mul<E2>>::Output,
        <T as Mul<E3>>::Output,
        <T as Mul<E12>>::Output,
        <T as Mul<E31>>::Output,
        <T as Mul<E23>>::Output,
        <T as Mul<E123>>::Output,
    >;

    fn mul(self, rhs: &Multivector3<E, E1, E2, E3, E12, E31, E23, E123>) -> Self::Output {
        Multivector3 {
            e: self.0 * rhs.e,
            e1: self.0 * rhs.e1,
            e2: self.0 * rhs.e2,
            e3: self.0 * rhs.e3,
            e12: self.0 * rhs.e12,
            e31: self.0 * rhs.e31,
            e23: self.0 * rhs.e23,
            e123: self.0 * rhs.e123,
        }
    }
}

impl<T: Copy, E: Copy, E1: Copy, E2: Copy, E3: Copy, E12: Copy, E31: Copy, E23: Copy, E123: Copy> MulSpecImpl<&Multivector3<E, E1, E2, E3, E12, E31, E23, E123>> for Se<T> where
    T: Mul<E> + Mul<E1> + Mul<E2> + Mul<E3> + Mul<E12> + Mul<E31> + Mul<E23> + Mul<E123>,
{
    open spec fn obeys_mul_spec() -> bool {
        &&& <T as MulSpec<E>>::obeys_mul_spec()
        &&& <T as MulSpec<E1>>::obeys_mul_spec()
        &&& <T as MulSpec<E2>>::obeys_mul_spec()
        &&& <T as MulSpec<E3>>::obeys_mul_spec()
        &&& <T as MulSpec<E12>>::obeys_mul_spec()
        &&& <T as MulSpec<E31>>::obeys_mul_spec()
        &&& <T as MulSpec<E23>>::obeys_mul_spec()
        &&& <T as MulSpec<E123>>::obeys_mul_spec()
    }

    open spec fn mul_req(self, rhs: &Multivector3<E, E1, E2, E3, E12, E31, E23, E123>) -> bool {
        &&& self.0.mul_req(rhs.e)
        &&& self.0.mul_req(rhs.e1)
        &&& self.0.mul_req(rhs.e2)
        &&& self.0.mul_req(rhs.e3)
        &&& self.0.mul_req(rhs.e12)
        &&& self.0.mul_req(rhs.e31)
        &&& self.0.mul_req(rhs.e23)
        &&& self.0.mul_req(rhs.e123)
    }

    open spec fn mul_spec(self, rhs: &Multivector3<E, E1, E2, E3, E12, E31, E23, E123>) -> Self::Output {
        Multivector3 {
            e: self.0.mul_spec(rhs.e),
            e1: self.0.mul_spec(rhs.e1),
            e2: self.0.mul_spec(rhs.e2),
            e3: self.0.mul_spec(rhs.e3),
            e12: self.0.mul_spec(rhs.e12),
            e31: self.0.mul_spec(rhs.e31),
            e23: self.0.mul_spec(rhs.e23),
            e123: self.0.mul_spec(rhs.e123),
        }
    }
}

/// A multiple of the unit vector e1, as the left factor of a product.
pub struct Se1<T>(pub T);

impl<T: Copy, E: Copy, E1: Copy, E2: Copy, E3: Copy, E12: Copy, E31: Copy, E23: Copy, E123: Copy> Mul<&Multivector3<E, E1, E2, E3, E12, E31, E23, E123>> for Se1<T> where
    T: Neg + Mul<E> + Mul<E1> + Mul<E2> + Mul<E12> + Mul<E23> + Mul<E123>,
    <T as Neg>::Output: Mul<E3> + Mul<E31>,
{
    type Output = Multivector3<
        <T as Mul<E1>>::Output,
        <T as Mul<E>>::Output,
        <T as Mul<E12>>::Output,
        <<T as Neg>::Output as Mul<E31>>::Output,
        <T as Mul<E2>>::Output,
        <<T as Neg>::Output as Mul<E3>>::Output,
        <T as Mul<E123>>::Output,
        <T as Mul<E23>>::Output,
    >;

    fn mul(self, rhs: &Multivector3<E, E1, E2, E3, E12, E31, E23, E123>) -> Self::Output {
        Multivector3 {
            e: self.0 * rhs.e1,
            e1: self.0 * rhs.e,
            e2: self.0 * rhs.e12,
            e3: self.0.neg() * rhs.e31,
            e12: self.0 * rhs.e2,
            e31: self.0.neg() * rhs.e3,
            e23: self.0 * rhs.e123,
            e123: self.0 * rhs.e23,
        }
    }
}

impl<T: Copy, E: Copy, E1: Copy, E2: Copy, E3: Copy, E12: Copy, E31: Copy, E23: Copy, E123: Copy> MulSpecImpl<&Multivector3<E, E1, E2, E3, E12, E31, E23, E123>> for Se1<T> where
    T: Neg + Mul<E> + Mul<E1> + Mul<E2> + Mul<E12> + Mul<E23> + Mul<E123>,
    <T as Neg>::Output: Mul<E3> + Mul<E31>,
{
    open spec fn obeys_mul_spec() -> bool {
        &&& <T as NegSpec>::obeys_neg_spec()
        &&& <T as MulSpec<E1>>::obeys_mul_spec()
        &&& <T as MulSpec<E>>::obeys_mul_spec()
        &&& <T as MulSpec<E12>>::obeys_mul_spec()
        &&& <<T as Neg>::Output as MulSpec<E31>>::obeys_mul_spec()
        &&& <T as MulSpec<E2>>::obeys_mul_spec()
        &&& <<T as Neg>::Output as MulSpec<E3>>::obeys_mul_spec()
        &&& <T as MulSpec<E123>>::obeys_mul_spec()
        &&& <T as MulSpec<E23>>::obeys_mul_spec()
    }

    open spec fn mul_req(self, rhs: &Multivector3<E, E1, E2, E3, E12, E31, E23, E123>) -> bool {
        &&& <T as NegSpec>::obeys_neg_spec()
        &&& self.0.neg_req()
        &&& self.0.mul_req(rhs.e1)
        &&& self.0.mul_req(rhs.e)
        &&& self.0.mul_req(rhs.e12)
        &&& self.0.neg_spec().mul_req(rhs.e31)
        &&& self.0.mul_req(rhs.e2)
        &&& self.0.neg_spec().mul_req(rhs.e3)
        &&& self.0.mul_req(rhs.e123)
        &&& self.0.mul_req(rhs.e23)
    }

    open spec fn mul_spec(self, rhs: &Multivector3<E, E1, E2, E3, E12, E31, E23, E123>) -> Self::Output {
        Multivector3 {
            e: self.0.mul_spec(rhs.e1),
            e1: self.0.mul_spec(rhs.e),
            e2: self.0.mul_spec(rhs.e12),
            e3: self.0.neg_spec().mul_spec(rhs.e31),
            e12: self.0.mul_spec(rhs.e2),
            e31: self.0.neg_spec().mul_spec(rhs.e3),
            e23: self.0.mul_spec(rhs.e123),
            e123: self.0.mul_spec(rhs.e23),
        }
    }
}

/// A multiple of the unit vector e2, as the left factor of a product.
pub struct Se2<T>(pub T);

impl<T: Copy, E: Copy, E1: Copy, E2: Copy, E3: Copy, E12: Copy, E31: Copy, E23: Copy, E123: Copy> Mul<&Multivector3<E, E1, E2, E3, E12, E31, E23, E123>> for Se2<T> where
    T: Neg + Mul<E> + Mul<E2> + Mul<E3> + Mul<E31> + Mul<E23> + Mul<E123>,
    <T as Neg>::Output: Mul<E1> + Mul<E12>,
{
    type Output = Multivector3<
        <T as Mul<E2>>::Output,
        <<T as Neg>::Output as Mul<E12>>::Output,
        <T as Mul<E>>::Output,
        <T as Mul<E23>>::Output,
        <<T as Neg>::Output as Mul<E1>>::Output,
        <T as Mul<E123>>::Output,
        <T as Mul<E3>>::Output,
        <T as Mul<E31>>::Output,
    >;

    fn mul(self, rhs: &Multivector3<E, E1, E2, E3, E12, E31, E23, E123>) -> Self::Output {
        Multivector3 {
            e: self.0 * rhs.e2,
            e1: self.0.neg() * rhs.e12,
            e2: self.0 * rhs.e,
            e3: self.0 * rhs.e23,
            e12: self.0.neg() * rhs.e1,
            e31: self.0 * rhs.e123,
            e23: self.0 * rhs.e3,
            e123: self.0 * rhs.e31,
        }
    }
}

impl<T: Copy, E: Copy, E1: Copy, E2: Copy, E3: Copy, E12: Copy, E31: Copy, E23: Copy, E123: Copy> MulSpecImpl<&Multivector3<E, E1, E2, E3, E12, E31, E23, E123>> for Se2<T> where
    T: Neg + Mul<E> + Mul<E2> + Mul<E3> + Mul<E31> + Mul<E23> + Mul<E123>,
    <T as Neg>::Output: Mul<E1> + Mul<E12>,
{
    open spec fn obeys_mul_spec() -> bool {
        &&& <T as NegSpec>::obeys_neg_spec()
        &&& <T as MulSpec<E2>>::obeys_mul_spec()
        &&& <<T as Neg>::Output as MulSpec<E12>>::obeys_mul_spec()
        &&& <T as MulSpec<E>>::obeys_mul_spec()
        &&& <T as MulSpec<E23>>::obeys_mul_spec()
        &&& <<T as Neg>::Output as MulSpec<E1>>::obeys_mul_spec()
        &&& <T as MulSpec<E123>>::obeys_mul_spec()
        &&& <T as MulSpec<E3>>::obeys_mul_spec()
        &&& <T as MulSpec<E31>>::obeys_mul_spec()
    }

    open spec fn mul_req(self, rhs: &Multivector3<E, E1, E2, E3, E12, E31, E23, E123>) -> bool {
        &&& <T as NegSpec>::obeys_neg_spec()
        &&& self.0.neg_req()
        &&& self.0.mul_req(rhs.e2)
        &&& self.0.neg_spec().mul_req(rhs.e12)
        &&& self.0.mul_req(rhs.e)
        &&& self.0.mul_req(rhs.e23)
        &&& self.0.neg_spec().mul_req(rhs.e1)
        &&& self.0.mul_req(rhs.e123)
        &&& self.0.mul_req(rhs.e3)
        &&& self.0.mul_req(rhs.e31)
    }

    open spec fn mul_spec(self, rhs: &Multivector3<E, E1, E2, E3, E12, E31, E23, E123>) -> Self::Output {
        Multivector3 {
            e: self.0.mul_spec(rhs.e2),
            e1: self.0.neg_spec().mul_spec(rhs.e12),
            e2: self.0.mul_spec(rhs.e),
            e3: self.0.mul_spec(rhs.e23),
            e12: self.0.neg_spec().mul_spec(rhs.e1),
            e31: self.0.mul_spec(rhs.e123),
            e23: self.0.mul_spec(rhs.e3),
            e123: self.0.mul_spec(rhs.e31),
        }
    }
}

/// A multiple of the unit vector e3, as the left factor of a product.
pub struct Se3<T>(pub T);

impl<T: Copy, E: Copy, E1: Copy, E2: Copy, E3: Copy, E12: Copy, E31: Copy, E23: Copy, E123: Copy> Mul<&Multivector3<E, E1, E2, E3, E12, E31, E23, E123>> for Se3<T> where
    T: Neg + Mul<E> + Mul<E1> + Mul<E3> + Mul<E12> + Mul<E31> + Mul<E123>,
    <T as Neg>::Output: Mul<E2> + Mul<E23>,
{
    type Output = Multivector3<
        <T as Mul<E3>>::Output,
        <T as Mul<E31>>::Output,
        <<T as Neg>::Output as Mul<E23>>::Output,
        <T as Mul<E>>::Output,
        <T as Mul<E123>>::Output,
        <T as Mul<E1>>::Output,
        <<T as Neg>::Output as Mul<E2>>::Output,
        <T as Mul<E12>>::Output,
    >;

    fn mul(self, rhs: &Multivector3<E, E1, E2, E3, E12, E31, E23, E123>) -> Self::Output {
        Multivector3 {
            e: self.0 * rhs.e3,
            e1: self.0 * rhs.e31,
            e2: self.0.neg() * rhs.e23,
            e3: self.0 * rhs.e,
            e12: self.0 * rhs.e123,
            e31: self.0 * rhs.e1,
            e23: self.0.neg() * rhs.e2,
            e123: self.0 * rhs.e12,
        }
    }
}

impl<T: Copy, E: Copy, E1: Copy, E2: Copy, E3: Copy, E12: Copy, E31: Copy, E23: Copy, E123: Copy> MulSpecImpl<&Multivector3<E, E1, E2, E3, E12, E31, E23, E123>> for Se3<T> where
    T: Neg + Mul<E> + Mul<E1> + Mul<E3> + Mul<E12> + Mul<E31> + Mul<E123>,
    <T as Neg>::Output: Mul<E2> + Mul<E23>,
{
    open spec fn obeys_mul_spec() -> bool {
        &&& <T as NegSpec>::obeys_neg_spec()
        &&& <T as MulSpec<E3>>::obeys_mul_spec()
        &&& <T as MulSpec<E31>>::obeys_mul_spec()
        &&& <<T as Neg>::Output as MulSpec<E23>>::obeys_mul_spec()
        &&& <T as MulSpec<E>>::obeys_mul_spec()
        &&& <T as MulSpec<E123>>::obeys_mul_spec()
        &&& <T as MulSpec<E1>>::obeys_mul_spec()
        &&& <<T as Neg>::Output as MulSpec<E2>>::obeys_mul_spec()
        &&& <T as MulSpec<E12>>::obeys_mul_spec()
    }

    open spec fn mul_req(self, rhs: &Multivector3<E, E1, E2, E3, E12, E31, E23, E123>) -> bool {
        &&& <T as NegSpec>::obeys_neg_spec()
        &&& self.0.neg_req()
        &&& self.0.mul_req(rhs.e3)
        &&& self.0.mul_req(rhs.e31)
        &&& self.0.neg_spec().mul_req(rhs.e23)
        &&& self.0.mul_req(rhs.e)
        &&& self.0.mul_req(rhs.e123)
        &&& self.0.mul_req(rhs.e1)
        &&& self.0.neg_spec().mul_req(rhs.e2)
        &&& self.0.mul_req(rhs.e12)
    }

    open spec fn mul_spec(self, rhs: &Multivector3<E, E1, E2, E3, E12, E31, E23, E123>) -> Self::Output {
        Multivector3 {
            e: self.0.mul_spec(rhs.e3),
            e1: self.0.mul_spec(rhs.e31),
            e2: self.0.neg_spec().mul_spec(rhs.e23),
            e3: self.0.mul_spec(rhs.e),
            e12: self.0.mul_spec(rhs.e123),
            e31: self.0.mul_spec(rhs.e1),
            e23: self.0.neg_spec().mul_spec(rhs.e2),
            e123: self.0.mul_spec(rhs.e12),
        }
    }
}

/// A multiple of the unit bivector e12, as the left factor of a product.
pub struct Se12<T>(pub T);

impl<T: Copy, E: Copy, E1: Copy, E2: Copy, E3: Copy, E12: Copy, E31: Copy, E23: Copy, E123: Copy> Mul<&Multivector3<E, E1, E2, E3, E12, E31, E23, E123>> for Se12<T> where
    T: Neg + Mul<E> + Mul<E2> + Mul<E3> + Mul<E31>,
    <T as Neg>::Output: Mul<E1> + Mul<E12> + Mul<E23> + Mul<E123>,
{
    type Output = Multivector3<
        <<T as Neg>::Output as Mul<E12>>::Output,
        <T as Mul<E2>>::Output,
        <<T as Neg>::Output as Mul<E1>>::Output,
        <<T as Neg>::Output as Mul<E123>>::Output,
        <T as Mul<E>>::Output,
        <<T as Neg>::Output as Mul<E23>>::Output,
        <T as Mul<E31>>::Output,
        <T as Mul<E3>>::Output,
    >;

    fn mul(self, rhs: &Multivector3<E, E1, E2, E3, E12, E31, E23, E123>) -> Self::Output {
        Multivector3 {
            e: self.0.neg() * rhs.e12,
            e1: self.0 * rhs.e2,
            e2: self.0.neg() * rhs.e1,
            e3: self.0.neg() * rhs.e123,
            e12: self.0 * rhs.e,
            e31: self.0.neg() * rhs.e23,
            e23: self.0 * rhs.e31,
            e123: self.0 * rhs.e3,
        }
    }
}

impl<T: Copy, E: Copy, E1: Copy, E2: Copy, E3: Copy, E12: Copy, E31: Copy, E23: Copy, E123: Copy> MulSpecImpl<&Multivector3<E, E1, E2, E3, E12, E31, E23, E123>> for Se12<T> where
    T: Neg + Mul<E> + Mul<E2> + Mul<E3> + Mul<E31>,
    <T as Neg>::Output: Mul<E1> + Mul<E12> + Mul<E23> + Mul<E123>,
{
    open spec fn obeys_mul_spec() -> bool {
        &&& <T as NegSpec>::obeys_neg_spec()
        &&& <<T as Neg>::Output as MulSpec<E12>>::obeys_mul_spec()
        &&& <T as MulSpec<E2>>::obeys_mul_spec()
        &&& <<T as Neg>::Output as MulSpec<E1>>::obeys_mul_spec()
        &&& <<T as Neg>::Output as MulSpec<E123>>::obeys_mul_spec()
        &&& <T as MulSpec<E>>::obeys_mul_spec()
        &&& <<T as Neg>::Output as MulSpec<E23>>::obeys_mul_spec()
        &&& <T as MulSpec<E31>>::obeys_mul_spec()
        &&& <T as MulSpec<E3>>::obeys_mul_spec()
    }

    open spec fn mul_req(self, rhs: &Multivector3<E, E1, E2, E3, E12, E31, E23, E123>) -> bool {
        &&& <T as NegSpec>::obeys_neg_spec()
        &&& self.0.neg_req()
        &&& self.0.neg_spec().mul_req(rhs.e12)
        &&& self.0.mul_req(rhs.e2)
        &&& self.0.neg_spec().mul_req(rhs.e1)
        &&& self.0.neg_spec().mul_req(rhs.e123)
        &&& self.0.mul_req(rhs.e)
        &&& self.0.neg_spec().mul_req(rhs.e23)
        &&& self.0.mul_req(rhs.e31)
        &&& self.0.mul_req(rhs.e3)
    }

    open spec fn mul_spec(self, rhs: &Multivector3<E, E1, E2, E3, E12, E31, E23, E123>) -> Self::Output {
        Multivector3 {
            e: self.0.neg_spec().mul_spec(rhs.e12),
            e1: self.0.mul_spec(rhs.e2),
            e2: self.0.neg_spec().mul_spec(rhs.e1),
            e3: self.0.neg_spec().mul_spec(rhs.e123),
            e12: self.0.mul_spec(rhs.e),
            e31: self.0.neg_spec().mul_spec(rhs.e23),
            e23: self.0.mul_spec(rhs.e31),
            e123: self.0.mul_spec(rhs.e3),
        }
    }
}

/// A multiple of the unit bivector e31, as the left factor of a product.
pub struct Se31<T>(pub T);

impl<T: Copy, E: Copy, E1: Copy, E2: Copy, E3: Copy, E12: Copy, E31: Copy, E23: Copy, E123: Copy> Mul<&Multivector3<E, E1, E2, E3, E12, E31, E23, E123>> for Se31<T> where
    T: Neg + Mul<E> + Mul<E1> + Mul<E2> + Mul<E23>,
    <T as Neg>::Output: Mul<E3> + Mul<E12> + Mul<E31> + Mul<E123>,
{
    type Output = Multivector3<
        <<T as Neg>::Output as Mul<E31>>::Output,
        <<T as Neg>::Output as Mul<E3>>::Output,
        <<T as Neg>::Output as Mul<E123>>::Output,
        <T as Mul<E1>>::Output,
        <T as Mul<E23>>::Output,
        <T as Mul<E>>::Output,
        <<T as Neg>::Output as Mul<E12>>::Output,
        <T as Mul<E2>>::Output,
    >;

    fn mul(self, rhs: &Multivector3<E, E1, E2, E3, E12, E31, E23, E123>) -> Self::Output {
        Multivector3 {
            e: self.0.neg() * rhs.e31,
            e1: self.0.neg() * rhs.e3,
            e2: self.0.neg() * rhs.e123,
            e3: self.0 * rhs.e1,
            e12: self.0 * rhs.e23,
            e31: self.0 * rhs.e,
            e23: self.0.neg() * rhs.e12,
            e123: self.0 * rhs.e2,
        }
    }
}

impl<T: Copy, E: Copy, E1: Copy, E2: Copy, E3: Copy, E12: Copy, E31: Copy, E23: Copy, E123: Copy> MulSpecImpl<&Multivector3<E, E1, E2, E3, E12, E31, E23, E123>> for Se31<T> where
    T: Neg + Mul<E> + Mul<E1> + Mul<E2> + Mul<E23>,
    <T as Neg>::Output: Mul<E3> + Mul<E12> + Mul<E31> + Mul<E123>,
{
    open spec fn obeys_mul_spec() -> bool {
        &&& <T as NegSpec>::obeys_neg_spec()
        &&& <<T as Neg>::Output as MulSpec<E31>>::obeys_mul_spec()
        &&& <<T as Neg>::Output as MulSpec<E3>>::obeys_mul_spec()
        &&& <<T as Neg>::Output as MulSpec<E123>>::obeys_mul_spec()
        &&& <T as MulSpec<E1>>::obeys_mul_spec()
        &&& <T as MulSpec<E23>>::obeys_mul_spec()
        &&& <T as MulSpec<E>>::obeys_mul_spec()
        &&& <<T as Neg>::Output as MulSpec<E12>>::obeys_mul_spec()
        &&& <T as MulSpec<E2>>::obeys_mul_spec()
    }

    open spec fn mul_req(self, rhs: &Multivector3<E, E1, E2, E3, E12, E31, E23, E123>) -> bool {
        &&& <T as NegSpec>::obeys_neg_spec()
        &&& self.0.neg_req()
        &&& self.0.neg_spec().mul_req(rhs.e31)
        &&& self.0.neg_spec().mul_req(rhs.e3)
        &&& self.0.neg_spec().mul_req(rhs.e123)
        &&& self.0.mul_req(rhs.e1)
        &&& self.0.mul_req(rhs.e23)
        &&& self.0.mul_req(rhs.e)
        &&& self.0.neg_spec().mul_req(rhs.e12)
        &&& self.0.mul_req(rhs.e2)
    }

    open spec fn mul_spec(self, rhs: &Multivector3<E, E1, E2, E3, E12, E31, E23, E123>) -> Self::Output {
        Multivector3 {
            e: self.0.neg_spec().mul_spec(rhs.e31),
            e1: self.0.neg_spec().mul_spec(rhs.e3),
            e2: self.0.neg_spec().mul_spec(rhs.e123),
            e3: self.0.mul_spec(rhs.e1),
            e12: self.0.mul_spec(rhs.e23),
            e31: self.0.mul_spec(rhs.e),
            e23: self.0.neg_spec().mul_spec(rhs.e12),
            e123: self.0.mul_spec(rhs.e2),
        }
    }
}

/// A multiple of the unit bivector e23, as the left factor of a product.
pub struct Se23<T>(pub T);

impl<T: Copy, E: Copy, E1: Copy, E2: Copy, E3: Copy, E12: Copy, E31: Copy, E23: Copy, E123: Copy> Mul<&Multivector3<E, E1, E2, E3, E12, E31, E23, E123>> for Se23<T> where
    T: Neg + Mul<E> + Mul<E1> + Mul<E3> + Mul<E12>,
    <T as Neg>::Output: Mul<E2> + Mul<E31> + Mul<E23> + Mul<E123>,
{
    type Output = Multivector3<
        <<T as Neg>::Output as Mul<E23>>::Output,
        <<T as Neg>::Output as Mul<E123>>::Output,
        <T as Mul<E3>>::Output,
        <<T as Neg>::Output as Mul<E2>>::Output,
        <<T as Neg>::Output as Mul<E31>>::Output,
        <T as Mul<E12>>::Output,
        <T as Mul<E>>::Output,
        <T as Mul<E1>>::Output,
    >;

    fn mul(self, rhs: &Multivector3<E, E1, E2, E3, E12, E31, E23, E123>) -> Self::Output {
        Multivector3 {
            e: self.0.neg() * rhs.e23,
            e1: self.0.neg() * rhs.e123,
            e2: self.0 * rhs.e3,
            e3: self.0.neg() * rhs.e2,
            e12: self.0.neg() * rhs.e31,
            e31: self.0 * rhs.e12,
            e23: self.0 * rhs.e,
            e123: self.0 * rhs.e1,
        }
    }
}

impl<T: Copy, E: Copy, E1: Copy, E2: Copy, E3: Copy, E12: Copy, E31: Copy, E23: Copy, E123: Copy> MulSpecImpl<&Multivector3<E, E1, E2, E3, E12, E31, E23, E123>> for Se23<T> where
    T: Neg + Mul<E> + Mul<E1> + Mul<E3> + Mul<E12>,
    <T as Neg>::Output: Mul<E2> + Mul<E31> + Mul<E23> + Mul<E123>,
{
    open spec fn obeys_mul_spec() -> bool {
        &&& <T as NegSpec>::obeys_neg_spec()
        &&& <<T as Neg>::Output as MulSpec<E23>>::obeys_mul_spec()
        &&& <<T as Neg>::Output as MulSpec<E123>>::obeys_mul_spec()
        &&& <T as MulSpec<E3>>::obeys_mul_spec()
        &&& <<T as Neg>::Output as MulSpec<E2>>::obeys_mul_spec()
        &&& <<T as Neg>::Output as MulSpec<E31>>::obeys_mul_spec()
        &&& <T as MulSpec<E12>>::obeys_mul_spec()
        &&& <T as MulSpec<E>>::obeys_mul_spec()
        &&& <T as MulSpec<E1>>::obeys_mul_spec()
    }

    open spec fn mul_req(self, rhs: &Multivector3<E, E1, E2, E3, E12, E31, E23, E123>) -> bool {
        &&& <T as NegSpec>::obeys_neg_spec()
        &&& self.0.neg_req()
        &&& self.0.neg_spec().mul_req(rhs.e23)
        &&& self.0.neg_spec().mul_req(rhs.e123)
        &&& self.0.mul_req(rhs.e3)
        &&& self.0.neg_spec().mul_req(rhs.e2)
        &&& self.0.neg_spec().mul_req(rhs.e31)
        &&& self.0.mul_req(rhs.e12)
        &&& self.0.mul_req(rhs.e)
        &&& self.0.mul_req(rhs.e1)
    }

    open spec fn mul_spec(self, rhs: &Multivector3<E, E1, E2, E3, E12, E31, E23, E123>) -> Self::Output {
        Multivector3 {
            e: self.0.neg_spec().mul_spec(rhs.e23),
            e1: self.0.neg_spec().mul_spec(rhs.e123),
            e2: self.0.mul_spec(rhs.e3),
            e3: self.0.neg_spec().mul_spec(rhs.e2),
            e12: self.0.neg_spec().mul_spec(rhs.e31),
            e31: self.0.mul_spec(rhs.e12),
            e23: self.0.mul_spec(rhs.e),
            e123: self.0.mul_spec(rhs.e1),
        }
    }
}

/// A multiple of the unit trivector e123, as the left factor of a product.
pub struct Se123<T>(pub T);

impl<T: Copy, E: Copy, E1: Copy, E2: Copy, E3: Copy, E12: Copy, E31: Copy, E23: Copy, E123: Copy> Mul<&Multivector3<E, E1, E2, E3, E12, E31, E23, E123>> for Se123<T> where
    T: Neg + Mul<E> + Mul<E1> + Mul<E2> + Mul<E3>,
    <T as Neg>::Output: Mul<E12> + Mul<E31> + Mul<E23> + Mul<E123>,
{
    type Output = Multivector3<
        <<T as Neg>::Output as Mul<E123>>::Output,
        <<T as Neg>::Output as Mul<E23>>::Output,
        <<T as Neg>::Output as Mul<E31>>::Output,
        <<T as Neg>::Output as Mul<E12>>::Output,
        <T as Mul<E3>>::Output,
        <T as Mul<E2>>::Output,
        <T as Mul<E1>>::Output,
        <T as Mul<E>>::Output,
    >;

    fn mul(self, rhs: &Multivector3<E, E1, E2, E3, E12, E31, E23, E123>) -> Self::Output {
        Multivector3 {
            e: self.0.neg() * rhs.e123,
            e1: self.0.neg() * rhs.e23,
            e2: self.0.neg() * rhs.e31,
            e3: self.0.neg() * rhs.e12,
            e12: self.0 * rhs.e3,
            e31: self.0 * rhs.e2,
            e23: self.0 * rhs.e1,
            e123: self.0 * rhs.e,
        }
    }
}

impl<T: Copy, E: Copy, E1: Copy, E2: Copy, E3: Copy, E12: Copy, E31: Copy, E23: Copy, E123: Copy> MulSpecImpl<&Multivector3<E, E1, E2, E3, E12, E31, E23, E123>> for Se123<T> where
    T: Neg + Mul<E> + Mul<E1> + Mul<E2> + Mul<E3>,
    <T as Neg>::Output: Mul<E12> + Mul<E31> + Mul<E23> + Mul<E123>,
{
    open spec fn obeys_mul_spec() -> bool {
        &&& <T as NegSpec>::obeys_neg_spec()
        &&& <<T as Neg>::Output as MulSpec<E123>>::obeys_mul_spec()
        &&& <<T as Neg>::Output as MulSpec<E23>>::obeys_mul_spec()
        &&& <<T as Neg>::Output as MulSpec<E31>>::obeys_mul_spec()
        &&& <<T as Neg>::Output as MulSpec<E12>>::obeys_mul_spec()
        &&& <T as MulSpec<E3>>::obeys_mul_spec()
        &&& <T as MulSpec<E2>>::obeys_mul_spec()
        &&& <T as MulSpec<E1>>::obeys_mul_spec()
        &&& <T as MulSpec<E>>::obeys_mul_spec()
    }

    open spec fn mul_req(self, rhs: &Multivector3<E, E1, E2, E3, E12, E31, E23, E123>) -> bool {
        &&& <T as NegSpec>::obeys_neg_spec()
        &&& self.0.neg_req()
        &&& self.0.neg_spec().mul_req(rhs.e123)
        &&& self.0.neg_spec().mul_req(rhs.e23)
        &&& self.0.neg_spec().mul_req(rhs.e31)
        &&& self.0.neg_spec().mul_req(rhs.e12)
        &&& self.0.mul_req(rhs.e3)
        &&& self.0.mul_req(rhs.e2)
        &&& self.0.mul_req(rhs.e1)
        &&& self.0.mul_req(rhs.e)
    }

    open spec fn mul_spec(self, rhs: &Multivector3<E, E1, E2, E3, E12, E31, E23, E123>) -> Self::Output {
        Multivector3 {
            e: self.0.neg_spec().mul_spec(rhs.e123),
            e1: self.0.neg_spec().mul_spec(rhs.e23),
            e2: self.0.neg_spec().mul_spec(rhs.e31),
            e3: self.0.neg_spec().mul_spec(rhs.e12),
            e12: self.0.mul_spec(rhs.e3),
            e31: self.0.mul_spec(rhs.e2),
            e23: self.0.mul_spec(rhs.e1),
            e123: self.0.mul_spec(rhs.e),
        }
    }
}

/// A scalar.
pub type W<T> = Multivector3<Just<T>, Nil, Nil, Nil, Nil, Nil, Nil, Nil>;

/// A multiple of e1.
pub type X<T> = Multivector3<Nil, Just<T>, Nil, Nil, Nil, Nil, Nil, Nil>;

/// A multiple of e2.
pub type Y<T> = Multivector3<Nil, Nil, Just<T>, Nil, Nil, Nil, Nil, Nil>;

/// A multiple of e3.
pub type Z<T> = Multivector3<Nil, Nil, Nil, Just<T>, Nil, Nil, Nil, Nil>;

/// A multiple of e12.
pub type XY<T> = Multivector3<Nil, Nil, Nil, Nil, Just<T>, Nil, Nil, Nil>;

/// A multiple of e31.
pub type ZX<T> = Multivector3<Nil, Nil, Nil, Nil, Nil, Just<T>, Nil, Nil>;

/// A multiple of e23.
pub type YZ<T> = Multivector3<Nil, Nil, Nil, Nil, Nil, Nil, Just<T>, Nil>;

/// A multiple of e123.
pub type XYZ<T> = Multivector3<Nil, Nil, Nil, Nil, Nil, Nil, Nil, Just<T>>;

/// A scalar and a trivector part.
pub type Complex<T> = Multivector3<Just<T>, Nil, Nil, Nil, Nil, Nil, Nil, Just<T>>;

/// A vector.
pub type Vec3<T> = Multivector3<Nil, Just<T>, Just<T>, Just<T>, Nil, Nil, Nil, Nil>;

/// A bivector.
pub type Bivec<T> = Multivector3<Nil, Nil, Nil, Nil, Just<T>, Just<T>, Just<T>, Nil>;

/// A scalar and a bivector part.
pub type Rotor<T> = Multivector3<Just<T>, Nil, Nil, Nil, Just<T>, Just<T>, Just<T>, Nil>;

/// A vector and a bivector part.
pub type Line<T> = Multivector3<Nil, Just<T>, Just<T>, Just<T>, Just<T>, Just<T>, Just<T>, Nil>;

/// A scalar and a vector part.
pub type Sphere<T> = Multivector3<Just<T>, Just<T>, Just<T>, Just<T>, Nil, Nil, Nil, Nil>;

/// A bivector and a trivector part.
pub type Plane<T> = Multivector3<Nil, Nil, Nil, Nil, Just<T>, Just<T>, Just<T>, Just<T>>;

/// Every component.
pub type Frame<T> = Multivector3<Just<T>, Just<T>, Just<T>, Just<T>, Just<T>, Just<T>, Just<T>, Just<T>>;

/// The products of the components of two tuples, place by place.
pub trait VecScale: Sized {
    type Output;

    spec fn obeys_scale_spec() -> bool;

    spec fn scale_req(self) -> bool;

    spec fn scale_spec(self) -> Self::Output;

    fn value(self) -> (r: Self::Output)
        requires
            self.scale_req(),
        ensures
            Self::obeys_scale_spec() ==> r == self.scale_spec(),
    ;
}

impl<A1, A2, A3, A4, A5, A6, A7, A8, B1, B2, B3, B4, B5, B6, B7, B8> VecScale for ((A1, A2, A3, A4, A5, A6, A7, A8), (B1, B2, B3, B4, B5, B6, B7, B8)) where
    A1: Mul<B1>,
    A2: Mul<B2>,
    A3: Mul<B3>,
    A4: Mul<B4>,
    A5: Mul<B5>,
    A6: Mul<B6>,
    A7: Mul<B7>,
    A8: Mul<B8>,
{
    type Output = (
        <A1 as Mul<B1>>::Output,
        <A2 as Mul<B2>>::Output,
        <A3 as Mul<B3>>::Output,
        <A4 as Mul<B4>>::Output,
        <A5 as Mul<B5>>::Output,
        <A6 as Mul<B6>>::Output,
        <A7 as Mul<B7>>::Output,
        <A8 as Mul<B8>>::Output,
    );

    open spec fn obeys_scale_spec() -> bool {
        &&& <A1 as MulSpec<B1>>::obeys_mul_spec()
        &&& <A2 as MulSpec<B2>>::obeys_mul_spec()
        &&& <A3 as MulSpec<B3>>::obeys_mul_spec()
        &&& <A4 as MulSpec<B4>>::obeys_mul_spec()
        &&& <A5 as MulSpec<B5>>::obeys_mul_spec()
        &&& <A6 as MulSpec<B6>>::obeys_mul_spec()
        &&& <A7 as MulSpec<B7>>::obeys_mul_spec()
        &&& <A8 as MulSpec<B8>>::obeys_mul_spec()
    }

    open spec fn scale_req(self) -> bool {
        &&& self.0.0.mul_req(self.1.0)
        &&& self.0.1.mul_req(self.1.1)
        &&& self.0.2.mul_req(self.1.2)
        &&& self.0.3.mul_req(self.1.3)
        &&& self.0.4.mul_req(self.1.4)
        &&& self.0.5.mul_req(self.1.5)
        &&& self.0.6.mul_req(self.1.6)
        &&& self.0.7.mul_req(self.1.7)
    }

    open spec fn scale_spec(self) -> Self::Output {
        (
            self.0.0.mul_spec(self.1.0),
            self.0.1.mul_spec(self.1.1),
            self.0.2.mul_spec(self.1.2),
            self.0.3.mul_spec(self.1.3),
            self.0.4.mul_spec(self.1.4),
            self.0.5.mul_spec(self.1.5),
            self.0.6.mul_spec(self.1.6),
            self.0.7.mul_spec(self.1.7),
        )
    }

    fn value(self) -> Self::Output {
        let ((a1, a2, a3, a4, a5, a6, a7, a8), (b1, b2, b3, b4, b5, b6, b7, b8)) = self;
        (a1 * b1, a2 * b2, a3 * b3, a4 * b4, a5 * b5, a6 * b6, a7 * b7, a8 * b8)
    }
}

impl<E: Copy, E1: Copy, E2: Copy, E3: Copy, E12: Copy, E31: Copy, E23: Copy, E123: Copy, F: Copy, F1: Copy, F2: Copy, F3: Copy, F12: Copy, F31: Copy, F23: Copy, F123: Copy> Add<Multivector3<E, E1, E2, E3, E12, E31, E23, E123>> for Multivector3<F, F1, F2, F3, F12, F31, F23, F123> where
    F: Add<E>,
    F1: Add<E1>,
    F2: Add<E2>,
    F3: Add<E3>,
    F12: Add<E12>,
    F31: Add<E31>,
    F23: Add<E23>,
    F123: Add<E123>,
{
    type Output = Multivector3<
        <F as Add<E>>::Output,
        <F1 as Add<E1>>::Output,
        <F2 as Add<E2>>::Output,
        <F3 as Add<E3>>::Output,
        <F12 as Add<E12>>::Output,
        <F31 as Add<E31>>::Output,
        <F23 as Add<E23>>::Output,
        <F123 as Add<E123>>::Output,
    >;

    fn add(self, rhs: Multivector3<E, E1, E2, E3, E12, E31, E23, E123>) -> Self::Output {
        Multivector3 {
            e: self.e + rhs.e,
            e1: self.e1 + rhs.e1,
            e2: self.e2 + rhs.e2,
            e3: self.e3 + rhs.e3,
            e12: self.e12 + rhs.e12,
            e31: self.e31 + rhs.e31,
            e23: self.e23 + rhs.e23,
            e123: self.e123 + rhs.e123,
        }
    }
}

impl<E: Copy, E1: Copy, E2: Copy, E3: Copy, E12: Copy, E31: Copy, E23: Copy, E123: Copy, F: Copy, F1: Copy, F2: Copy, F3: Copy, F12: Copy, F31: Copy, F23: Copy, F123: Copy> AddSpecImpl<Multivector3<E, E1, E2, E3, E12, E31, E23, E123>> for Multivector3<F, F1, F2, F3, F12, F31, F23, F123> where
    F: Add<E>,
    F1: Add<E1>,
    F2: Add<E2>,
    F3: Add<E3>,
    F12: Add<E12>,
    F31: Add<E31>,
    F23: Add<E23>,
    F123: Add<E123>,
{
    open spec fn obeys_add_spec() -> bool {
        &&& <F as AddSpec<E>>::obeys_add_spec()
        &&& <F1 as AddSpec<E1>>::obeys_add_spec()
        &&& <F2 as AddSpec<E2>>::obeys_add_spec()
        &&& <F3 as AddSpec<E3>>::obeys_add_spec()
        &&& <F12 as AddSpec<E12>>::obeys_add_spec()
        &&& <F31 as AddSpec<E31>>::obeys_add_spec()
        &&& <F23 as AddSpec<E23>>::obeys_add_spec()
        &&& <F123 as AddSpec<E123>>::obeys_add_spec()
    }

    open spec fn add_req(self, rhs: Multivector3<E, E1, E2, E3, E12, E31, E23, E123>) -> bool {
        &&& self.e.add_req(rhs.e)
        &&& self.e1.add_req(rhs.e1)
        &&& self.e2.add_req(rhs.e2)
        &&& self.e3.add_req(rhs.e3)
        &&& self.e12.add_req(rhs.e12)
        &&& self.e31.add_req(rhs.e31)
        &&& self.e23.add_req(rhs.e23)
        &&& self.e123.add_req(rhs.e123)
    }

    open spec fn add_spec(self, rhs: Multivector3<E, E1, E2, E3, E12, E31, E23, E123>) -> Self::Output {
        Multivector3 {
            e: self.e.add_spec(rhs.e),
            e1: self.e1.add_spec(rhs.e1),
            e2: self.e2.add_spec(rhs.e2),
            e3: self.e3.add_spec(rhs.e3),
            e12: self.e12.add_spec(rhs.e12),
            e31: self.e31.add_spec(rhs.e31),
            e23: self.e23.add_spec(rhs.e23),
            e123: self.e123.add_spec(rhs.e123),
        }
    }
}

impl<'a, E: Copy, E1: Copy, E2: Copy, E3: Copy, E12: Copy, E31: Copy, E23: Copy, E123: Copy, F: Copy, F1: Copy, F2: Copy, F3: Copy, F12: Copy, F31: Copy, F23: Copy, F123: Copy> Mul<&'a Multivector3<E, E1, E2, E3, E12, E31, E23, E123>> for &Multivector3<F, F1, F2, F3, F12, F31, F23, F123> where
    Se<F>: Mul<&'a Multivector3<E, E1, E2, E3, E12, E31, E23, E123>>,
    Se1<F1>: Mul<&'a Multivector3<E, E1, E2, E3, E12, E31, E23, E123>>,
    Se2<F2>: Mul<&'a Multivector3<E, E1, E2, E3, E12, E31, E23, E123>>,
    Se3<F3>: Mul<&'a Multivector3<E, E1, E2, E3, E12, E31, E23, E123>>,
    Se12<F12>: Mul<&'a Multivector3<E, E1, E2, E3, E12, E31, E23, E123>>,
    Se31<F31>: Mul<&'a Multivector3<E, E1, E2, E3, E12, E31, E23, E123>>,
    Se23<F23>: Mul<&'a Multivector3<E, E1, E2, E3, E12, E31, E23, E123>>,
    Se123<F123>: Mul<&'a Multivector3<E, E1, E2, E3, E12, E31, E23, E123>>,
    (
        <Se<F> as Mul<&'a Multivector3<E, E1, E2, E3, E12, E31, E23, E123>>>::Output,
        <Se1<F1> as Mul<&'a Multivector3<E, E1, E2, E3, E12, E31, E23, E123>>>::Output,
        <Se2<F2> as Mul<&'a Multivector3<E, E1, E2, E3, E12, E31, E23, E123>>>::Output,
        <Se3<F3> as Mul<&'a Multivector3<E, E1, E2, E3, E12, E31, E23, E123>>>::Output,
        <Se12<F12> as Mul<&'a Multivector3<E, E1, E2, E3, E12, E31, E23, E123>>>::Output,
        <Se31<F31> as Mul<&'a Multivector3<E, E1, E2, E3, E12, E31, E23, E123>>>::Output,
        <Se23<F23> as Mul<&'a Multivector3<E, E1, E2, E3, E12, E31, E23, E123>>>::Output,
        <Se123<F123> as Mul<&'a Multivector3<E, E1, E2, E3, E12, E31, E23, E123>>>::Output,
    ): VecSum,
{
    type Output = <(
        <Se<F> as Mul<&'a Multivector3<E, E1, E2, E3, E12, E31, E23, E123>>>::Output,
        <Se1<F1> as Mul<&'a Multivector3<E, E1, E2, E3, E12, E31, E23, E123>>>::Output,
        <Se2<F2> as Mul<&'a Multivector3<E, E1, E2, E3, E12, E31, E23, E123>>>::Output,
        <Se3<F3> as Mul<&'a Multivector3<E, E1, E2, E3, E12, E31, E23, E123>>>::Output,
        <Se12<F12> as Mul<&'a Multivector3<E, E1, E2, E3, E12, E31, E23, E123>>>::Output,
        <Se31<F31> as Mul<&'a Multivector3<E, E1, E2, E3, E12, E31, E23, E123>>>::Output,
        <Se23<F23> as Mul<&'a Multivector3<E, E1, E2, E3, E12, E31, E23, E123>>>::Output,
        <Se123<F123> as Mul<&'a Multivector3<E, E1, E2, E3, E12, E31, E23, E123>>>::Output,
    ) as VecSum>::Output;

    fn mul(self, rhs: &'a Multivector3<E, E1, E2, E3, E12, E31, E23, E123>) -> Self::Output {
        (
            Se(self.e).mul(rhs),
            Se1(self.e1).mul(rhs),
            Se2(self.e2).mul(rhs),
            Se3(self.e3).mul(rhs),
            Se12(self.e12).mul(rhs),
            Se31(self.e31).mul(rhs),
            Se23(self.e23).mul(rhs),
            Se123(self.e123).mul(rhs),
        ).value()
    }
}

impl<'a, E: Copy, E1: Copy, E2: Copy, E3: Copy, E12: Copy, E31: Copy, E23: Copy, E123: Copy, F: Copy, F1: Copy, F2: Copy, F3: Copy, F12: Copy, F31: Copy, F23: Copy, F123: Copy> MulSpecImpl<&'a Multivector3<E, E1, E2, E3, E12, E31, E23, E123>> for &Multivector3<F, F1, F2, F3, F12, F31, F23, F123> where
    Se<F>: Mul<&'a Multivector3<E, E1, E2, E3, E12, E31, E23, E123>>,
    Se1<F1>: Mul<&'a Multivector3<E, E1, E2, E3, E12, E31, E23, E123>>,
    Se2<F2>: Mul<&'a Multivector3<E, E1, E2, E3, E12, E31, E23, E123>>,
    Se3<F3>: Mul<&'a Multivector3<E, E1, E2, E3, E12, E31, E23, E123>>,
    Se12<F12>: Mul<&'a Multivector3<E, E1, E2, E3, E12, E31, E23, E123>>,
    Se31<F31>: Mul<&'a Multivector3<E, E1, E2, E3, E12, E31, E23, E123>>,
    Se23<F23>: Mul<&'a Multivector3<E, E1, E2, E3, E12, E31, E23, E123>>,
    Se123<F123>: Mul<&'a Multivector3<E, E1, E2, E3, E12, E31, E23, E123>>,
    (
        <Se<F> as Mul<&'a Multivector3<E, E1, E2, E3, E12, E31, E23, E123>>>::Output,
        <Se1<F1> as Mul<&'a Multivector3<E, E1, E2, E3, E12, E31, E23, E123>>>::Output,
        <Se2<F2> as Mul<&'a Multivector3<E, E1, E2, E3, E12, E31, E23, E123>>>::Output,
        <Se3<F3> as Mul<&'a Multivector3<E, E1, E2, E3, E12, E31, E23, E123>>>::Output,
        <Se12<F12> as Mul<&'a Multivector3<E, E1, E2, E3, E12, E31, E23, E123>>>::Output,
        <Se31<F31> as Mul<&'a Multivector3<E, E1, E2, E3, E12, E31, E23, E123>>>::Output,
        <Se23<F23> as Mul<&'a Multivector3<E, E1, E2, E3, E12, E31, E23, E123>>>::Output,
        <Se123<F123> as Mul<&'a Multivector3<E, E1, E2, E3, E12, E31, E23, E123>>>::Output,
    ): VecSum,
{
    open spec fn obeys_mul_spec() -> bool {
        &&& <Se<F> as MulSpec<&'a Multivector3<E, E1, E2, E3, E12, E31, E23, E123>>>::obeys_mul_spec()
        &&& <Se1<F1> as MulSpec<&'a Multivector3<E, E1, E2, E3, E12, E31, E23, E123>>>::obeys_mul_spec()
        &&& <Se2<F2> as MulSpec<&'a Multivector3<E, E1, E2, E3, E12, E31, E23, E123>>>::obeys_mul_spec()
        &&& <Se3<F3> as MulSpec<&'a Multivector3<E, E1, E2, E3, E12, E31, E23, E123>>>::obeys_mul_spec()
        &&& <Se12<F12> as MulSpec<&'a Multivector3<E, E1, E2, E3, E12, E31, E23, E123>>>::obeys_mul_spec()
        &&& <Se31<F31> as MulSpec<&'a Multivector3<E, E1, E2, E3, E12, E31, E23, E123>>>::obeys_mul_spec()
        &&& <Se23<F23> as MulSpec<&'a Multivector3<E, E1, E2, E3, E12, E31, E23, E123>>>::obeys_mul_spec()
        &&& <Se123<F123> as MulSpec<&'a Multivector3<E, E1, E2, E3, E12, E31, E23, E123>>>::obeys_mul_spec()
        &&& <(
        <Se<F> as Mul<&'a Multivector3<E, E1, E2, E3, E12, E31, E23, E123>>>::Output,
        <Se1<F1> as Mul<&'a Multivector3<E, E1, E2, E3, E12, E31, E23, E123>>>::Output,
        <Se2<F2> as Mul<&'a Multivector3<E, E1, E2, E3, E12, E31, E23, E123>>>::Output,
        <Se3<F3> as Mul<&'a Multivector3<E, E1, E2, E3, E12, E31, E23, E123>>>::Output,
        <Se12<F12> as Mul<&'a Multivector3<E, E1, E2, E3, E12, E31, E23, E123>>>::Output,
        <Se31<F31> as Mul<&'a Multivector3<E, E1, E2, E3, E12, E31, E23, E123>>>::Output,
        <Se23<F23> as Mul<&'a Multivector3<E, E1, E2, E3, E12, E31, E23, E123>>>::Output,
        <Se123<F123> as Mul<&'a Multivector3<E, E1, E2, E3, E12, E31, E23, E123>>>::Output,
    ) as VecSum>::obeys_sum_spec()
    }

    open spec fn mul_req(self, rhs: &'a Multivector3<E, E1, E2, E3, E12, E31, E23, E123>) -> bool {
        &&& <Se<F> as MulSpec<&'a Multivector3<E, E1, E2, E3, E12, E31, E23, E123>>>::obeys_mul_spec()
        &&& <Se1<F1> as MulSpec<&'a Multivector3<E, E1, E2, E3, E12, E31, E23, E123>>>::obeys_mul_spec()
        &&& <Se2<F2> as MulSpec<&'a Multivector3<E, E1, E2, E3, E12, E31, E23, E123>>>::obeys_mul_spec()
        &&& <Se3<F3> as MulSpec<&'a Multivector3<E, E1, E2, E3, E12, E31, E23, E123>>>::obeys_mul_spec()
        &&& <Se12<F12> as MulSpec<&'a Multivector3<E, E1, E2, E3, E12, E31, E23, E123>>>::obeys_mul_spec()
        &&& <Se31<F31> as MulSpec<&'a Multivector3<E, E1, E2, E3, E12, E31, E23, E123>>>::obeys_mul_spec()
        &&& <Se23<F23> as MulSpec<&'a Multivector3<E, E1, E2, E3, E12, E31, E23, E123>>>::obeys_mul_spec()
        &&& <Se123<F123> as MulSpec<&'a Multivector3<E, E1, E2, E3, E12, E31, E23, E123>>>::obeys_mul_spec()
        &&& Se(self.e).mul_req(rhs)
        &&& Se1(self.e1).mul_req(rhs)
        &&& Se2(self.e2).mul_req(rhs)
        &&& Se3(self.e3).mul_req(rhs)
        &&& Se12(self.e12).mul_req(rhs)
        &&& Se31(self.e31).mul_req(rhs)
        &&& Se23(self.e23).mul_req(rhs)
        &&& Se123(self.e123).mul_req(rhs)
        &&& (
            Se(self.e).mul_spec(rhs),
            Se1(self.e1).mul_spec(rhs),
            Se2(self.e2).mul_spec(rhs),
            Se3(self.e3).mul_spec(rhs),
            Se12(self.e12).mul_spec(rhs),
            Se31(self.e31).mul_spec(rhs),
            Se23(self.e23).mul_spec(rhs),
            Se123(self.e123).mul_spec(rhs),
        ).sum_req()
    }

    open spec fn mul_spec(self, rhs: &'a Multivector3<E, E1, E2, E3, E12, E31, E23, E123>) -> Self::Output {
        (
            Se(self.e).mul_spec(rhs),
            Se1(self.e1).mul_spec(rhs),
            Se2(self.e2).mul_spec(rhs),
            Se3(self.e3).mul_spec(rhs),
            Se12(self.e12).mul_spec(rhs),
            Se31(self.e31).mul_spec(rhs),
            Se23(self.e23).mul_spec(rhs),
            Se123(self.e123).mul_spec(rhs),
        ).sum_spec()
    }
}

} // verus!
