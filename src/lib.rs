//! A small sphere raytracer: scene configuration, hit selection, shading and
//! image assembly, with their behaviour stated and proved.
use vstd::prelude::*;

pub mod dispatch;
pub mod lifecycle;
pub mod raytracer;

verus! {

} // verus!
