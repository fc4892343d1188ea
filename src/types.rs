//! A value of one of two types.

use vstd::prelude::*;

verus! {

pub enum Either<L, R> {
    Left(L),
    Right(R),
}

impl<L, R> Either<L, R> {
    pub fn is_left(&self) -> (r: bool)
        ensures
            r == self is Left,
    {
        match self {
            Either::Left(_) => true,
            _ => false,
        }
    }

    pub fn is_right(&self) -> (r: bool)
        ensures
            r == self is Right,
    {
        match self {
            Either::Right(_) => true,
            _ => false,
        }
    }
}

} // verus!
