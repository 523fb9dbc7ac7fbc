//! Generic geometric records.

use vstd::prelude::*;

verus! {

/// Three corners of a triangle.
#[allow(dead_code)]
pub struct Triangle<T> {
    a: T,
    b: T,
    c: T,
}

} // verus!
