//! The error of operations that cannot fail.

use std::convert::Infallible;
use vstd::prelude::*;

verus! {

/// A type without values: the error arm of a stage that never fails, so
/// that such a stage can stand in a chain of fallible ones. Its one variant
/// holds a value of a type that has none.
#[derive(Debug, PartialEq, Eq, Hash)]
pub enum Void {
    Never(Infallible),
}

impl Clone for Void {
    fn clone(&self) -> (void: Self)
        ensures
            void == *self,
    {
        *self
    }
}

impl Copy for Void {

}

} // verus!
