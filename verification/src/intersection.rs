//! An intersection record: the ray parameter of a hit and the object hit.

use vstd::prelude::*;
use crate::sphere::{sphere_like, Sphere};

verus! {

/// A hit along a ray: the parametric distance `t` and the object hit.
/// The record owns a copy of the object, so it never outlives it.
#[derive(Debug)]
pub struct Intersection {
    pub t: i64,
    pub object: Sphere,
}

impl Intersection {
    /// A new intersection record.
    pub fn new(t: i64, object: Sphere) -> (r: Intersection)
        ensures
            r.t == t,
            sphere_like(r.object, object),
            r.object == object,
    {
        Intersection { t, object }
    }

    /// The ray parameter of the hit.
    pub fn get_t(&self) -> (r: i64)
        ensures
            r == self.t,
    {
        self.t
    }

    /// The object hit.
    pub fn get_object(&self) -> (r: &Sphere)
        ensures
            *r == self.object,
    {
        &self.object
    }
}

impl Clone for Intersection {
    /// A copy holding the same parameter and an equal object.
    fn clone(&self) -> (r: Self)
        ensures
            r.t == self.t,
            sphere_like(r.object, self.object),
    {
        Intersection { t: self.t, object: self.object.clone() }
    }
}

} // verus!
