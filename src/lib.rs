//! In-between frames for a chain of equally sized images, by linear blending
//! of each colour channel, with a closed-form index formula and a forward
//! cursor that are proved to give the same frames.
use vstd::prelude::*;

pub mod image;
pub mod pixel;
pub mod sequence;

verus! {

} // verus!
