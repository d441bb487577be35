//! How a render is split into compute work groups.
use vstd::prelude::*;

verus! {

/// Invocations along each side of one square work group.
pub const WORKGROUP_SIZE: u32 = 32;

/// Number of work groups along a side of `n` pixels: the fewest whose
/// invocations reach every pixel.
pub open spec fn groups_along(n: nat) -> nat {
    (n + WORKGROUP_SIZE - 1) as nat / WORKGROUP_SIZE as nat
}

/// Work groups to dispatch for a `width` by `height` image, one invocation per
/// pixel: `[across, down, 1]`.
pub fn workgroup_counts(width: u32, height: u32) -> (r: [u32; 3])
    ensures
        r@ == seq![groups_along(width as nat) as u32, groups_along(height as nat) as u32, 1u32],
        r@[0] * WORKGROUP_SIZE >= width,
        r@[0] * WORKGROUP_SIZE < width + WORKGROUP_SIZE,
        r@[1] * WORKGROUP_SIZE >= height,
        r@[1] * WORKGROUP_SIZE < height + WORKGROUP_SIZE,
{
    let gx = width / WORKGROUP_SIZE + if width % WORKGROUP_SIZE == 0 { 0 } else { 1 };
    let gy = height / WORKGROUP_SIZE + if height % WORKGROUP_SIZE == 0 { 0 } else { 1 };
    let r = [gx, gy, 1];
    assert(r@ =~= seq![gx, gy, 1u32]);
    r
}

} // verus!
