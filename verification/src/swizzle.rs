//! Named permutations of three components.
use vstd::prelude::*;

use crate::spacial::{triple, AxisSwap, permute};

verus! {

/// A permutation of three components; the variant names the source of each
/// output position.
#[derive(Clone, Copy, Debug, PartialEq, Eq, Structural, Hash)]
pub enum Swizzle3 {
    XYZ,
    XZY,
    YXZ,
    YZX,
    ZXY,
    ZYX,
}

impl Swizzle3 {
    /// The coordinate permutation with the same source order.
    pub open spec fn as_axis_swap(self) -> AxisSwap {
        match self {
            Swizzle3::XYZ => AxisSwap::XYZ,
            Swizzle3::XZY => AxisSwap::XZY,
            Swizzle3::YXZ => AxisSwap::YXZ,
            Swizzle3::YZX => AxisSwap::YZX,
            Swizzle3::ZXY => AxisSwap::ZXY,
            Swizzle3::ZYX => AxisSwap::ZYX,
        }
    }

    /// Reorders the components of `v`.
    pub fn mul<T: Copy>(self, v: [T; 3]) -> (r: [T; 3])
        ensures
            triple(r) == permute(triple(v), self.as_axis_swap()),
    {
        let x = v[0];
        let y = v[1];
        let z = v[2];
        match self {
            Swizzle3::XYZ => [x, y, z],
            Swizzle3::XZY => [x, z, y],
            Swizzle3::YXZ => [y, x, z],
            Swizzle3::YZX => [y, z, x],
            Swizzle3::ZXY => [z, x, y],
            Swizzle3::ZYX => [z, y, x],
        }
    }
}

} // verus!
