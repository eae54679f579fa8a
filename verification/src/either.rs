//! A two-armed tagged union that merges two value or error domains.

use vstd::prelude::*;

verus! {

/// Either a `Left` or a `Right` value; used to merge the error kinds of two
/// composed stages without losing which of them failed.
#[derive(Debug, PartialEq)]
pub enum Either<L, R> {
    Left(L),
    Right(R),
}

impl<L: Clone, R: Clone> Clone for Either<L, R> {
    /// A copy is on the same side and holds a copy of the value.
    fn clone(&self) -> (copy: Self)
        ensures
            match *self {
                Either::Left(left) => copy is Left && cloned(left, copy->Left_0),
                Either::Right(right) => copy is Right && cloned(right, copy->Right_0),
            },
    {
        match self {
            Either::Left(left) => Either::Left(left.clone()),
            Either::Right(right) => Either::Right(right.clone()),
        }
    }
}

impl<L, R> Either<L, R> {
    /// The value of the `Left` arm.
    pub fn into_left(self) -> (left: L)
        requires
            self is Left,
        ensures
            left == self->Left_0,
    {
        match self {
            Either::Left(left) => left,
            Either::Right(_) => unreached(),
        }
    }

    /// The value of the `Right` arm.
    pub fn into_right(self) -> (right: R)
        requires
            self is Right,
        ensures
            right == self->Right_0,
    {
        match self {
            Either::Left(_) => unreached(),
            Either::Right(right) => right,
        }
    }
}

} // verus!
