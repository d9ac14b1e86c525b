use voxel_world::spacial::{
    index, quad_indices, quad_uv, Axis, AxisSwap, IVec3, Side, Sides, SidesExt, Sign, Symetry2,
    Vec3Ext,
};
use voxel_world::swizzle::Swizzle3;

const ALL_SWAPS: [AxisSwap; 6] = [
    AxisSwap::XYZ,
    AxisSwap::XZY,
    AxisSwap::YXZ,
    AxisSwap::YZX,
    AxisSwap::ZXY,
    AxisSwap::ZYX,
];

#[test]
fn inverse_undoes_every_swap() {
    for swap in ALL_SWAPS {
        let v = [1, 2, 3];
        assert_eq!(v.axis_swap(swap).axis_swap(swap.inverse()), v);
        assert_eq!(swap.inverse().inverse(), swap);
    }
    assert_eq!(AxisSwap::YZX.inverse(), AxisSwap::ZXY);
    assert_eq!(AxisSwap::ZXY.inverse(), AxisSwap::YZX);
    assert_eq!(AxisSwap::XZY.inverse(), AxisSwap::XZY);
}

#[test]
fn axis_swap_permutes() {
    let v = [10, 20, 30];
    assert_eq!(v.axis_swap(AxisSwap::XYZ), [10, 20, 30]);
    assert_eq!(v.axis_swap(AxisSwap::XZY), [10, 30, 20]);
    assert_eq!(v.axis_swap(AxisSwap::YXZ), [20, 10, 30]);
    assert_eq!(v.axis_swap(AxisSwap::YZX), [20, 30, 10]);
    assert_eq!(v.axis_swap(AxisSwap::ZXY), [30, 10, 20]);
    assert_eq!(v.axis_swap(AxisSwap::ZYX), [30, 20, 10]);
}

#[test]
fn split_brings_axis_first_and_compose_undoes_it() {
    let v = IVec3::new(4, 5, 6);
    for axis in [Axis::X, Axis::Y, Axis::Z] {
        for sign in [Sign::Pos, Sign::Neg] {
            let (it, uv) = v.split(axis, sign);
            assert_eq!(it, *v.index(axis));
            assert_eq!(IVec3::compose(axis, sign, it, uv), v);
        }
    }
    assert_eq!(v.split(Axis::Y, Sign::Pos), (5, [6, 4]));
    assert_eq!(v.split(Axis::Y, Sign::Neg), (5, [4, 6]));
    assert_eq!(<[i32; 3]>::compose(Axis::Z, Sign::Pos, 9, [1, 2]), [1, 2, 9]);
}

#[test]
fn axis_swap_table() {
    assert_eq!(Axis::X.swap(Sign::Pos), AxisSwap::XYZ);
    assert_eq!(Axis::X.swap(Sign::Neg), AxisSwap::XZY);
    assert_eq!(Axis::Y.swap(Sign::Pos), AxisSwap::YZX);
    assert_eq!(Axis::Y.swap(Sign::Neg), AxisSwap::YXZ);
    assert_eq!(Axis::Z.swap(Sign::Pos), AxisSwap::ZXY);
    assert_eq!(Axis::Z.swap(Sign::Neg), AxisSwap::ZYX);
}

#[test]
fn sides_of_axes() {
    for axis in [Axis::X, Axis::Y, Axis::Z] {
        assert_eq!(axis.positive().axis(), axis);
        assert_eq!(axis.negative().axis(), axis);
        assert_eq!(axis.positive().sign(), Sign::Pos);
        assert_eq!(axis.negative().sign(), Sign::Neg);
        assert_eq!(axis.positive().oposite(), axis.negative());
    }
    assert_eq!(Axis::Y.negative(), Side::YNeg);
    assert_eq!(Axis::Z.positive(), Side::ZPos);
}

#[test]
fn oposite_is_an_involution() {
    for side in Side::all_sides() {
        assert_eq!(side.oposite().oposite(), side);
        assert_ne!(side.oposite(), side);
        assert_eq!(side.oposite().axis(), side.axis());
        assert_ne!(side.oposite().sign(), side.sign());
    }
    assert_eq!(Side::XPos.oposite(), Side::XNeg);
    assert_eq!(Side::ZNeg.oposite(), Side::ZPos);
}

#[test]
fn neighbour_steps_one_block_and_back() {
    let v = IVec3::new(-3, 7, 0);
    assert_eq!(Side::XPos.neighbour(v), IVec3::new(-2, 7, 0));
    assert_eq!(Side::YNeg.neighbour(v), IVec3::new(-3, 6, 0));
    assert_eq!(Side::ZPos.neighbour(v), IVec3::new(-3, 7, 1));
    for side in Side::all_sides() {
        assert_eq!(side.oposite().neighbour(side.neighbour(v)), v);
    }
}

#[test]
fn sides_map_list_all_index() {
    let s = Sides { x_pos: 1, x_neg: 2, y_pos: 3, y_neg: 4, z_pos: 5, z_neg: 6 };
    assert_eq!(s.list(), [1, 2, 3, 4, 5, 6]);
    assert_eq!(*s.index(Side::YNeg), 4);
    let doubled = s.map(|v: i32| v * 2);
    assert_eq!(doubled.list(), [2, 4, 6, 8, 10, 12]);
    assert_eq!(Sides::all(7u8).list(), [7; 6]);
    let arr = ["a", "b", "c", "d", "e", "f"];
    assert_eq!(*index(&arr, Side::ZPos), "e");
    assert_eq!(*index(&arr, Side::XNeg), "b");
}

#[test]
fn normals_are_unit_vectors() {
    let n = Sides::<IVec3>::normal();
    assert_eq!(*n.index(Side::XNeg), IVec3::new(-1, 0, 0));
    assert_eq!(*n.index(Side::YPos), IVec3::new(0, 1, 0));
    for side in Side::all_sides() {
        let v: IVec3 = side.normal();
        assert_eq!(v, *n.index(side));
    }
}

#[test]
fn quads_lie_on_their_face() {
    let q: [[i32; 3]; 4] = Side::XPos.quad();
    assert_eq!(q, [[1, 0, 0], [1, 1, 0], [1, 1, 1], [1, 0, 1]]);
    let q: [[i32; 3]; 4] = Side::YNeg.quad();
    assert_eq!(q, [[0, 0, 0], [1, 0, 0], [1, 0, 1], [0, 0, 1]]);
    let q: [[i32; 3]; 4] = Side::ZPos.quad();
    assert_eq!(q, [[0, 0, 1], [1, 0, 1], [1, 1, 1], [0, 1, 1]]);
    for side in Side::all_sides() {
        let q: [IVec3; 4] = side.quad();
        let depth = if side.sign() == Sign::Pos { 1 } else { 0 };
        for corner in q {
            assert_eq!(*corner.index(side.axis()), depth);
        }
    }
    assert_eq!(quad_uv(), [[0, 0], [1, 0], [1, 1], [0, 1]]);
    assert_eq!(quad_indices(), [0, 1, 2, 2, 3, 0]);
}

#[test]
fn symetries_of_the_square() {
    assert_eq!(Symetry2::ppp().apply([1, 0]), [1, 0]);
    assert_eq!(Symetry2::nnp().apply([0, 0]), [1, 0]);
    assert_eq!(Symetry2::nnp().apply([1, 0]), [1, 1]);
    assert_eq!(Symetry2::nnp().apply([1, 1]), [0, 1]);
    let flip_y = Symetry2 { swap_xy: Sign::Pos, flip_x: Sign::Pos, flip_y: Sign::Neg };
    assert_eq!(flip_y.apply([0, 0]), [0, 1]);
}

#[test]
fn zips_and_index_mut() {
    let a = IVec3::new(1, 2, 3);
    let b = IVec3::new(10, 20, 30);
    assert_eq!(a.zips(b, |l, r| l + r), IVec3::new(11, 22, 33));
    let mut c = a;
    *c.index_mut(Axis::Z) = 9;
    assert_eq!(c, IVec3::new(1, 2, 9));
    assert_eq!(a.add(b), IVec3::new(11, 22, 33));
}

#[test]
fn swizzles_reorder() {
    assert_eq!(Swizzle3::YZX.mul([1.0f32, 2.0, 3.0]), [2.0, 3.0, 1.0]);
    assert_eq!(Swizzle3::ZYX.mul([1, 2, 3]), [3, 2, 1]);
    assert_eq!(Swizzle3::XZY.mul([1, 2, 3]), [1, 3, 2]);
}
