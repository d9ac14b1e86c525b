//! Discrete geometry of the voxel grid: the six sides of a cube, the three
//! axes, coordinate permutations and integer vectors.
use vstd::prelude::*;

verus! {

/// An integer vector: a voxel position, a chunk position or a grid offset.
#[derive(Clone, Copy, Debug, PartialEq, Eq, Structural, Hash)]
pub struct IVec3 {
    pub x: i32,
    pub y: i32,
    pub z: i32,
}

/// One of the six faces of a cube.
#[derive(Clone, Copy, Debug, PartialEq, Eq, Structural, Hash)]
pub enum Side {
    XPos,
    XNeg,
    YPos,
    YNeg,
    ZPos,
    ZNeg,
}

/// One of the three coordinate axes.
#[derive(Clone, Copy, Debug, PartialEq, Eq, Structural, Hash)]
pub enum Axis {
    X,
    Y,
    Z,
}

/// A direction along an axis.
#[derive(Clone, Copy, Debug, PartialEq, Eq, Structural, Hash)]
pub enum Sign {
    Pos,
    Neg,
}

/// A permutation of the three coordinates: the variant names the source
/// coordinate of each output position.
#[derive(Clone, Copy, Debug, PartialEq, Eq, Structural, Hash)]
pub enum AxisSwap {
    XYZ,
    XZY,
    YXZ,
    YZX,
    ZXY,
    ZYX,
}

/// One value per side of a cube.
#[derive(Clone, Copy, Debug)]
pub struct Sides<T> {
    pub x_pos: T,
    pub x_neg: T,
    pub y_pos: T,
    pub y_neg: T,
    pub z_pos: T,
    pub z_neg: T,
}

/// A symmetry of the unit square: an optional swap of the two coordinates
/// followed by an optional flip of each.
#[derive(Clone, Copy, Debug, PartialEq, Eq, Structural)]
pub struct Symetry2 {
    pub swap_xy: Sign,
    pub flip_x: Sign,
    pub flip_y: Sign,
}

/// The permutation `swap` applied to a triple.
pub open spec fn permute<T>(v: (T, T, T), swap: AxisSwap) -> (T, T, T) {
    match swap {
        AxisSwap::XYZ => (v.0, v.1, v.2),
        AxisSwap::XZY => (v.0, v.2, v.1),
        AxisSwap::YXZ => (v.1, v.0, v.2),
        AxisSwap::YZX => (v.1, v.2, v.0),
        AxisSwap::ZXY => (v.2, v.0, v.1),
        AxisSwap::ZYX => (v.2, v.1, v.0),
    }
}

/// The coordinate of a triple along an axis.
pub open spec fn along<T>(v: (T, T, T), axis: Axis) -> T {
    match axis {
        Axis::X => v.0,
        Axis::Y => v.1,
        Axis::Z => v.2,
    }
}

/// The components of a three-element array as a triple.
pub open spec fn triple<T>(a: [T; 3]) -> (T, T, T) {
    (a[0], a[1], a[2])
}

impl IVec3 {
    pub open spec fn coords(self) -> (i32, i32, i32) {
        (self.x, self.y, self.z)
    }

    pub fn new(x: i32, y: i32, z: i32) -> (r: IVec3)
        ensures
            r == (IVec3 { x, y, z }),
    {
        IVec3 { x, y, z }
    }

    /// The component along `axis`.
    pub fn index(&self, axis: Axis) -> (r: &i32)
        ensures
            *r == along(self.coords(), axis),
    {
        match axis {
            Axis::X => &self.x,
            Axis::Y => &self.y,
            Axis::Z => &self.z,
        }
    }

    /// The component along `axis`, for writing.
    pub fn index_mut(&mut self, axis: Axis) -> (r: &mut i32)
        ensures
            *r == along(old(self).coords(), axis),
            axis == Axis::X ==> *final(self) == (IVec3 { x: *final(r), ..*old(self) }),
            axis == Axis::Y ==> *final(self) == (IVec3 { y: *final(r), ..*old(self) }),
            axis == Axis::Z ==> *final(self) == (IVec3 { z: *final(r), ..*old(self) }),
    {
        match axis {
            Axis::X => &mut self.x,
            Axis::Y => &mut self.y,
            Axis::Z => &mut self.z,
        }
    }

    pub open spec fn no_overflow_add(self, rhs: IVec3) -> bool {
        &&& i32::MIN <= self.x + rhs.x <= i32::MAX
        &&& i32::MIN <= self.y + rhs.y <= i32::MAX
        &&& i32::MIN <= self.z + rhs.z <= i32::MAX
    }

    pub open spec fn sum(self, rhs: IVec3) -> IVec3 {
        IVec3 {
            x: (self.x + rhs.x) as i32,
            y: (self.y + rhs.y) as i32,
            z: (self.z + rhs.z) as i32,
        }
    }

    /// Component-wise sum.
    pub fn add(self, rhs: IVec3) -> (r: IVec3)
        requires
            self.no_overflow_add(rhs),
        ensures
            r == self.sum(rhs),
    {
        IVec3 { x: self.x + rhs.x, y: self.y + rhs.y, z: self.z + rhs.z }
    }
}

impl AxisSwap {
    /// The permutation that undoes this one.
    #[verifier::allow_in_spec]
    pub fn inverse(self) -> AxisSwap
        returns
            (match self {
                AxisSwap::XYZ => AxisSwap::XYZ,
                AxisSwap::XZY => AxisSwap::XZY,
                AxisSwap::YXZ => AxisSwap::YXZ,
                AxisSwap::YZX => AxisSwap::ZXY,
                AxisSwap::ZXY => AxisSwap::YZX,
                AxisSwap::ZYX => AxisSwap::ZYX,
            }),
    {
        match self {
            AxisSwap::XYZ => AxisSwap::XYZ,
            AxisSwap::XZY => AxisSwap::XZY,
            AxisSwap::YXZ => AxisSwap::YXZ,
            AxisSwap::YZX => AxisSwap::ZXY,
            AxisSwap::ZXY => AxisSwap::YZX,
            AxisSwap::ZYX => AxisSwap::ZYX,
        }
    }
}

impl Side {
    /// All six sides, in the order of the fields of `Sides`.
    pub fn all_sides() -> (r: [Side; 6])
        ensures
            r@ == seq![Side::XPos, Side::XNeg, Side::YPos, Side::YNeg, Side::ZPos, Side::ZNeg],
    {
        [Side::XPos, Side::XNeg, Side::YPos, Side::YNeg, Side::ZPos, Side::ZNeg]
    }

    /// The side facing the other way.
    #[verifier::allow_in_spec]
    pub fn oposite(self) -> Side
        returns
            (match self {
                Side::XPos => Side::XNeg,
                Side::XNeg => Side::XPos,
                Side::YPos => Side::YNeg,
                Side::YNeg => Side::YPos,
                Side::ZPos => Side::ZNeg,
                Side::ZNeg => Side::ZPos,
            }),
    {
        match self {
            Side::XPos => Side::XNeg,
            Side::XNeg => Side::XPos,
            Side::YPos => Side::YNeg,
            Side::YNeg => Side::YPos,
            Side::ZPos => Side::ZNeg,
            Side::ZNeg => Side::ZPos,
        }
    }

    /// Whether the side faces the positive or the negative direction.
    #[verifier::allow_in_spec]
    pub fn sign(self) -> Sign
        returns
            (match self {
                Side::XPos | Side::YPos | Side::ZPos => Sign::Pos,
                Side::XNeg | Side::YNeg | Side::ZNeg => Sign::Neg,
            }),
    {
        match self {
            Side::XPos | Side::YPos | Side::ZPos => Sign::Pos,
            Side::XNeg | Side::YNeg | Side::ZNeg => Sign::Neg,
        }
    }

    /// The axis the side is perpendicular to.
    #[verifier::allow_in_spec]
    pub fn axis(self) -> Axis
        returns
            (match self {
                Side::XPos | Side::XNeg => Axis::X,
                Side::YPos | Side::YNeg => Axis::Y,
                Side::ZPos | Side::ZNeg => Axis::Z,
            }),
    {
        match self {
            Side::XPos | Side::XNeg => Axis::X,
            Side::YPos | Side::YNeg => Axis::Y,
            Side::ZPos | Side::ZNeg => Axis::Z,
        }
    }

    /// The unit vector pointing out of the side.
    pub open spec fn unit(self) -> IVec3 {
        match self {
            Side::XPos => IVec3 { x: 1, y: 0, z: 0 },
            Side::XNeg => IVec3 { x: -1i32, y: 0, z: 0 },
            Side::YPos => IVec3 { x: 0, y: 1, z: 0 },
            Side::YNeg => IVec3 { x: 0, y: -1i32, z: 0 },
            Side::ZPos => IVec3 { x: 0, y: 0, z: 1 },
            Side::ZNeg => IVec3 { x: 0, y: 0, z: -1i32 },
        }
    }

    /// The voxel adjacent to `of` across this side.
    pub fn neighbour(self, of: IVec3) -> (r: IVec3)
        requires
            self.unit().no_overflow_add(of),
        ensures
            r == self.unit().sum(of),
    {
        let normal = Sides::<IVec3>::normal();
        normal.index(self).add(of)
    }
}

impl Axis {
    /// The permutation that brings this axis first, keeping the remaining two
    /// in the orientation that `sign` selects.
    #[verifier::allow_in_spec]
    pub fn swap(self, sign: Sign) -> AxisSwap
        returns
            (match (self, sign) {
                (Axis::X, Sign::Pos) => AxisSwap::XYZ,
                (Axis::X, Sign::Neg) => AxisSwap::XZY,
                (Axis::Y, Sign::Pos) => AxisSwap::YZX,
                (Axis::Y, Sign::Neg) => AxisSwap::YXZ,
                (Axis::Z, Sign::Pos) => AxisSwap::ZXY,
                (Axis::Z, Sign::Neg) => AxisSwap::ZYX,
            }),
    {
        match (self, sign) {
            (Axis::X, Sign::Pos) => AxisSwap::XYZ,
            (Axis::X, Sign::Neg) => AxisSwap::XZY,
            (Axis::Y, Sign::Pos) => AxisSwap::YZX,
            (Axis::Y, Sign::Neg) => AxisSwap::YXZ,
            (Axis::Z, Sign::Pos) => AxisSwap::ZXY,
            (Axis::Z, Sign::Neg) => AxisSwap::ZYX,
        }
    }

    /// The side facing the negative direction of this axis.
    #[verifier::allow_in_spec]
    pub fn negative(self) -> Side
        returns
            (match self {
                Axis::X => Side::XNeg,
                Axis::Y => Side::YNeg,
                Axis::Z => Side::ZNeg,
            }),
    {
        match self {
            Axis::X => Side::XNeg,
            Axis::Y => Side::YNeg,
            Axis::Z => Side::ZNeg,
        }
    }

    /// The side facing the positive direction of this axis.
    #[verifier::allow_in_spec]
    pub fn positive(self) -> Side
        returns
            (match self {
                Axis::X => Side::XPos,
                Axis::Y => Side::YPos,
                Axis::Z => Side::ZPos,
            }),
    {
        match self {
            Axis::X => Side::XPos,
            Axis::Y => Side::YPos,
            Axis::Z => Side::ZPos,
        }
    }
}

impl<T> Sides<T> {
    /// The value of one side.
    pub open spec fn at(self, side: Side) -> T {
        match side {
            Side::XPos => self.x_pos,
            Side::XNeg => self.x_neg,
            Side::YPos => self.y_pos,
            Side::YNeg => self.y_neg,
            Side::ZPos => self.z_pos,
            Side::ZNeg => self.z_neg,
        }
    }

    /// The values in the order of `Side::all_sides`.
    pub open spec fn seq(self) -> Seq<T> {
        seq![self.x_pos, self.x_neg, self.y_pos, self.y_neg, self.z_pos, self.z_neg]
    }

    /// The value of one side, by reference.
    pub fn index(&self, side: Side) -> (r: &T)
        ensures
            *r == self.at(side),
    {
        match side {
            Side::XPos => &self.x_pos,
            Side::XNeg => &self.x_neg,
            Side::YPos => &self.y_pos,
            Side::YNeg => &self.y_neg,
            Side::ZPos => &self.z_pos,
            Side::ZNeg => &self.z_neg,
        }
    }

    /// Applies `m` to each side's value.
    pub fn map<U, F: Fn(T) -> U>(self, m: F) -> (r: Sides<U>)
        requires
            forall|t: T| m.requires((t,)),
        ensures
            forall|side: Side| m.ensures((self.at(side),), #[trigger] r.at(side)),
    {
        let x_pos = m(self.x_pos);
        let x_neg = m(self.x_neg);
        let y_pos = m(self.y_pos);
        let y_neg = m(self.y_neg);
        let z_pos = m(self.z_pos);
        let z_neg = m(self.z_neg);
        let r = Sides { x_pos, x_neg, y_pos, y_neg, z_pos, z_neg };
        assert forall|side: Side| m.ensures((self.at(side),), #[trigger] r.at(side)) by {
            match side {
                Side::XPos => {},
                Side::XNeg => {},
                Side::YPos => {},
                Side::YNeg => {},
                Side::ZPos => {},
                Side::ZNeg => {},
            }
        }
        r
    }

    /// The six values, in the order of `Side::all_sides`.
    pub fn list(self) -> (r: [T; 6])
        ensures
            r@ == self.seq(),
    {
        [self.x_pos, self.x_neg, self.y_pos, self.y_neg, self.z_pos, self.z_neg]
    }

    /// The same value on every side.
    pub fn all(elem: T) -> (r: Self)
        where
            T: Copy,
        ensures
            forall|side: Side| #[trigger] r.at(side) == elem,
    {
        Sides { x_pos: elem, x_neg: elem, y_pos: elem, y_neg: elem, z_pos: elem, z_neg: elem }
    }
}

/// The value of an array of six at the position of `side` in `Side::all_sides`.
pub fn index<T>(array: &[T; 6], side: Side) -> (r: &T)
    ensures
        *r == array@[side_position(side)],
{
    match side {
        Side::XPos => &array[0],
        Side::XNeg => &array[1],
        Side::YPos => &array[2],
        Side::YNeg => &array[3],
        Side::ZPos => &array[4],
        Side::ZNeg => &array[5],
    }
}

/// The position of a side in `Side::all_sides`.
pub open spec fn side_position(side: Side) -> int {
    match side {
        Side::XPos => 0,
        Side::XNeg => 1,
        Side::YPos => 2,
        Side::YNeg => 3,
        Side::ZPos => 4,
        Side::ZNeg => 5,
    }
}

/// Per-type constant tables of sides.
pub trait SidesExt<T>: Sized {
    /// The outward unit normal of each side.
    fn normal() -> Self;
}

impl SidesExt<IVec3> for Sides<IVec3> {
    fn normal() -> (r: Self)
        ensures
            forall|side: Side| #[trigger] r.at(side) == side.unit(),
    {
        let r = Sides {
            x_pos: IVec3 { x: 1, y: 0, z: 0 },
            x_neg: IVec3 { x: -1, y: 0, z: 0 },
            y_pos: IVec3 { x: 0, y: 1, z: 0 },
            y_neg: IVec3 { x: 0, y: -1, z: 0 },
            z_pos: IVec3 { x: 0, y: 0, z: 1 },
            z_neg: IVec3 { x: 0, y: 0, z: -1 },
        };
        assert forall|side: Side| #[trigger] r.at(side) == side.unit() by {
            match side {
                Side::XPos => {},
                Side::XNeg => {},
                Side::YPos => {},
                Side::YNeg => {},
                Side::ZPos => {},
                Side::ZNeg => {},
            }
        }
        r
    }
}

/// Permutes the components of an array.
fn swap3<T: Copy>(a: [T; 3], swap: AxisSwap) -> (r: [T; 3])
    ensures
        triple(r) == permute(triple(a), swap),
{
    let x = a[0];
    let y = a[1];
    let z = a[2];
    match swap {
        AxisSwap::XYZ => [x, y, z],
        AxisSwap::XZY => [x, z, y],
        AxisSwap::YXZ => [y, x, z],
        AxisSwap::YZX => [y, z, x],
        AxisSwap::ZXY => [z, x, y],
        AxisSwap::ZYX => [z, y, x],
    }
}

/// Three-component vectors, seen through their components.
pub trait Vec3Ext<T: Copy>: Sized {
    /// The components, in x, y, z order.
    spec fn coords(self) -> (T, T, T);

    fn into_array(self) -> (r: [T; 3])
        ensures
            triple(r) == self.coords(),
    ;

    fn from_array(a: [T; 3]) -> (r: Self)
        ensures
            r.coords() == triple(a),
    ;

    /// Splits the vector into its component along `axis` and the two others,
    /// ordered as `axis.swap(sign)` orders them.
    fn split(self, axis: Axis, sign: Sign) -> (r: (T, [T; 2]))
        ensures
            (r.0, r.1[0], r.1[1]) == permute(self.coords(), axis.swap(sign)),
    {
        let s = swap3(self.into_array(), axis.swap(sign));
        (s[0], [s[1], s[2]])
    }

    /// The vector whose `split(axis, sign)` is `(it, uv)`.
    fn compose(axis: Axis, sign: Sign, it: T, uv: [T; 2]) -> (r: Self)
        ensures
            r.coords() == permute((it, uv[0], uv[1]), axis.swap(sign).inverse()),
    {
        Self::from_array(swap3([it, uv[0], uv[1]], axis.swap(sign).inverse()))
    }

    /// Permutes the components.
    fn axis_swap(self, swap: AxisSwap) -> (r: Self)
        ensures
            r.coords() == permute(self.coords(), swap),
    {
        Self::from_array(swap3(self.into_array(), swap))
    }

    /// Combines the two vectors component by component with `map`.
    fn zips<F: Fn(T, T) -> T>(self, rhs: Self, map: F) -> (r: Self)
        requires
            forall|a: T, b: T| map.requires((a, b)),
        ensures
            map.ensures((self.coords().0, rhs.coords().0), r.coords().0),
            map.ensures((self.coords().1, rhs.coords().1), r.coords().1),
            map.ensures((self.coords().2, rhs.coords().2), r.coords().2),
    {
        let a = self.into_array();
        let b = rhs.into_array();
        let x = map(a[0], b[0]);
        let y = map(a[1], b[1]);
        let z = map(a[2], b[2]);
        Self::from_array([x, y, z])
    }
}

impl<T: Copy> Vec3Ext<T> for [T; 3] {
    open spec fn coords(self) -> (T, T, T) {
        triple(self)
    }

    fn into_array(self) -> (r: [T; 3]) {
        self
    }

    fn from_array(a: [T; 3]) -> (r: Self) {
        a
    }
}

impl Vec3Ext<i32> for IVec3 {
    open spec fn coords(self) -> (i32, i32, i32) {
        (self.x, self.y, self.z)
    }

    fn into_array(self) -> (r: [i32; 3]) {
        [self.x, self.y, self.z]
    }

    fn from_array(a: [i32; 3]) -> (r: Self) {
        IVec3 { x: a[0], y: a[1], z: a[2] }
    }
}

/// Two-component vectors.
pub trait Vec2Ext<T> {}

impl<T> Vec2Ext<T> for [T; 2] {}

impl Sign {
    /// Flips a unit coordinate: `x` for `Pos`, `1 - x` for `Neg`.
    pub open spec fn flip(self, x: int) -> int {
        match self {
            Sign::Pos => x,
            Sign::Neg => 1 - x,
        }
    }
}

impl Symetry2 {
    /// The identity.
    #[verifier::allow_in_spec]
    pub fn ppp() -> Symetry2
        returns
            (Symetry2 { swap_xy: Sign::Pos, flip_x: Sign::Pos, flip_y: Sign::Pos }),
    {
        Symetry2 { swap_xy: Sign::Pos, flip_x: Sign::Pos, flip_y: Sign::Pos }
    }

    /// Swap the coordinates, then flip the first: a quarter turn of the unit
    /// square.
    #[verifier::allow_in_spec]
    pub fn nnp() -> Symetry2
        returns
            (Symetry2 { swap_xy: Sign::Neg, flip_x: Sign::Neg, flip_y: Sign::Pos }),
    {
        Symetry2 { swap_xy: Sign::Neg, flip_x: Sign::Neg, flip_y: Sign::Pos }
    }

    /// The image of `[x, y]` under the symmetry.
    pub open spec fn image(self, v: (int, int)) -> (int, int) {
        let (x, y) = match self.swap_xy {
            Sign::Pos => v,
            Sign::Neg => (v.1, v.0),
        };
        (self.flip_x.flip(x), self.flip_y.flip(y))
    }

    /// Applies the symmetry to a point of the unit square.
    pub fn apply(self, vec: [i32; 2]) -> (r: [i32; 2])
        requires
            -2147483646 <= vec[0],
            -2147483646 <= vec[1],
        ensures
            (r[0] as int, r[1] as int) == self.image((vec[0] as int, vec[1] as int)),
    {
        let (x, y) = match self.swap_xy {
            Sign::Pos => (vec[0], vec[1]),
            Sign::Neg => (vec[1], vec[0]),
        };
        let x = match self.flip_x {
            Sign::Pos => x,
            Sign::Neg => 1 - x,
        };
        let y = match self.flip_y {
            Sign::Pos => y,
            Sign::Neg => 1 - y,
        };
        [x, y]
    }
}

/// The corners of the unit square in the order that `Side::quad` walks them.
pub open spec fn quad_uv_spec(i: int) -> (i32, i32) {
    if i == 0 {
        (0, 0)
    } else if i == 1 {
        (1, 0)
    } else if i == 2 {
        (1, 1)
    } else {
        (0, 1)
    }
}

/// The corners of the unit square in the order that `Side::quad` walks them.
pub fn quad_uv() -> (r: [[i32; 2]; 4])
    ensures
        forall|i: int| 0 <= i < 4 ==> (#[trigger] r@[i][0], r@[i][1]) == quad_uv_spec(i),
{
    [[0, 0], [1, 0], [1, 1], [0, 1]]
}

/// The two triangles of a quad, as positions among its four corners.
pub open spec fn quad_indices_spec(j: int) -> u32 {
    if j == 0 {
        0
    } else if j == 1 {
        1
    } else if j == 2 {
        2
    } else if j == 3 {
        2
    } else if j == 4 {
        3
    } else {
        0
    }
}

/// The two triangles of a quad, as positions among its four corners.
pub fn quad_indices() -> (r: [u32; 6])
    ensures
        forall|j: int| 0 <= j < 6 ==> #[trigger] r@[j] == quad_indices_spec(j),
{
    [0, 1, 2, 2, 3, 0]
}

impl Side {
    /// How far the face lies from the cube's origin along its axis.
    pub open spec fn depth(self) -> i32 {
        match self.sign() {
            Sign::Pos => 1,
            Sign::Neg => 0,
        }
    }

    /// The `i`-th corner of the face of the unit cube on this side.
    pub open spec fn corner(self, i: int) -> (i32, i32, i32) {
        permute(
            (self.depth(), quad_uv_spec(i).0, quad_uv_spec(i).1),
            self.axis().swap(self.sign()).inverse(),
        )
    }

    /// The four corners of the face of the unit cube on this side.
    pub fn quad<T: Vec3Ext<i32>>(self) -> (r: [T; 4])
        ensures
            forall|i: int| 0 <= i < 4 ==> (#[trigger] r@[i]).coords() == self.corner(i),
    {
        let sign = self.sign();
        let axis = self.axis();
        let depth = match sign {
            Sign::Pos => 1,
            Sign::Neg => 0,
        };
        let uv = quad_uv();
        let r = [
            T::compose(axis, sign, depth, uv[0]),
            T::compose(axis, sign, depth, uv[1]),
            T::compose(axis, sign, depth, uv[2]),
            T::compose(axis, sign, depth, uv[3]),
        ];
        r
    }

    /// The outward unit normal of the face on this side.
    pub fn normal<T: Vec3Ext<i32>>(self) -> (r: T)
        ensures
            r.coords() == self.unit().coords(),
    {
        let sign = self.sign();
        let axis = self.axis();
        let value = match sign {
            Sign::Pos => 1,
            Sign::Neg => -1,
        };
        T::compose(axis, sign, value, [0, 0])
    }
}

/// Undoing a permutation twice is the permutation itself.
pub proof fn lemma_inverse_involution(swap: AxisSwap)
    ensures
        swap.inverse().inverse() == swap,
{
}

/// `inverse` undoes a permutation, on either side.
pub proof fn lemma_inverse_undoes<T>(v: (T, T, T), swap: AxisSwap)
    ensures
        permute(permute(v, swap), swap.inverse()) == v,
        permute(permute(v, swap.inverse()), swap) == v,
{
}

/// `axis.swap(sign)` brings the component along `axis` first, whatever the sign.
pub proof fn lemma_swap_brings_axis_first<T>(v: (T, T, T), axis: Axis, sign: Sign)
    ensures
        permute(v, axis.swap(sign)).0 == along(v, axis),
{
}

/// Composing the parts that `split` yields gives back the vector, and
/// splitting a composed vector gives back its parts.
pub proof fn lemma_split_compose<T>(v: (T, T, T), axis: Axis, sign: Sign, it: T, u: T, w: T)
    ensures
        ({
            let p = permute(v, axis.swap(sign));
            permute(p, axis.swap(sign).inverse()) == v
        }),
        permute(permute((it, u, w), axis.swap(sign).inverse()), axis.swap(sign)) == (it, u, w),
        along(permute((it, u, w), axis.swap(sign).inverse()), axis) == it,
{
}

/// The opposite of the opposite is the side itself; opposite sides share an
/// axis and face opposite ways.
pub proof fn lemma_oposite(side: Side)
    ensures
        side.oposite().oposite() == side,
        side.oposite() != side,
        side.oposite().axis() == side.axis(),
        side.oposite().sign() != side.sign(),
        side.oposite().unit().x == -side.unit().x,
        side.oposite().unit().y == -side.unit().y,
        side.oposite().unit().z == -side.unit().z,
{
}

/// A side is determined by its axis and its sign.
pub proof fn lemma_side_from_axis_sign(side: Side)
    ensures
        side.sign() == Sign::Pos ==> side.axis().positive() == side,
        side.sign() == Sign::Neg ==> side.axis().negative() == side,
        side.axis().positive().sign() == Sign::Pos,
        side.axis().negative().sign() == Sign::Neg,
        side.axis().positive().axis() == side.axis(),
        side.axis().negative().axis() == side.axis(),
{
}

/// Stepping across a side and back across its opposite returns to the start.
pub proof fn lemma_neighbour_roundtrip(side: Side, v: IVec3)
    requires
        side.unit().no_overflow_add(v),
    ensures
        side.oposite().unit().no_overflow_add(side.unit().sum(v)),
        side.oposite().unit().sum(side.unit().sum(v)) == v,
{
}

/// Each symmetry maps the corners of the unit square onto corners.
pub proof fn lemma_symetry_keeps_corners(sym: Symetry2, x: int, y: int)
    requires
        0 <= x <= 1,
        0 <= y <= 1,
    ensures
        0 <= sym.image((x, y)).0 <= 1,
        0 <= sym.image((x, y)).1 <= 1,
{
}

/// The corners of a face lie on the face's plane, at depth 1 on a positive
/// side and 0 on a negative one; their other two components walk the
/// corners of the unit square, so the four corners are distinct.
pub proof fn lemma_quad_on_face(side: Side, i: int, j: int)
    requires
        0 <= i < 4,
        0 <= j < 4,
    ensures
        along(side.corner(i), side.axis()) == side.depth(),
        0 <= side.corner(i).0 <= 1,
        0 <= side.corner(i).1 <= 1,
        0 <= side.corner(i).2 <= 1,
        i != j ==> side.corner(i) != side.corner(j),
{
}

} // verus!
