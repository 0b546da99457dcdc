use crate::tuple::Tuple;
use vstd::prelude::*;

verus! {

/// A ray: the point it starts at and the vector it travels along.
#[derive(Clone, Copy, Debug, PartialEq)]
pub struct Ray {
    pub origin: Tuple,
    pub direction: Tuple,
}

impl Ray {
    /// The ray from `origin` along `direction`.
    pub fn new(origin: Tuple, direction: Tuple) -> (ray: Ray)
        ensures
            ray == (Ray { origin, direction }),
    {
        Ray { origin, direction }
    }
}

} // verus!
