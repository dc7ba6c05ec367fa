use raycore::bounds::Bounds3;
use raycore::domain::{Axis, Ray};
use raycore::math::Math;
use raycore::triangle::Triangle;
use raycore::vec3::Vec3;

fn v(x: i64, y: i64, z: i64) -> Vec3 {
    Vec3 { x, y, z }
}

#[test]
fn isqrt_exact_values() {
    assert_eq!(Math::isqrt(0), 0);
    assert_eq!(Math::isqrt(1), 1);
    assert_eq!(Math::isqrt(3), 1);
    assert_eq!(Math::isqrt(4), 2);
    assert_eq!(Math::isqrt(100_000_000), 10_000);
    assert_eq!(Math::isqrt(99_999_999), 9_999);
}

#[test]
fn vector_ops() {
    let a = v(1, 2, 3);
    let b = v(4, 5, 6);
    assert_eq!(a.add(&b), v(5, 7, 9));
    assert_eq!(a.sub(&b), v(-3, -3, -3));
    assert_eq!(a.dot(&b), 32);
    assert_eq!(a.cross(&b), v(-3, 6, -3));
    assert_eq!(v(3000, 0, 4000).length(), 5000);
}

#[test]
fn normalize_gives_unit_scale() {
    let n = v(0, 0, 7000).normalize();
    assert_eq!(n, v(0, 0, 1000));
    let z = v(0, 0, 0).normalize();
    assert_eq!(z, v(0, 0, 0));
}

#[test]
fn union_covers_both_boxes_and_points() {
    let a = Bounds3 { p_min: v(0, 0, 0), p_max: v(10, 10, 10) };
    let b = Bounds3 { p_min: v(-5, 2, 3), p_max: v(4, 20, 6) };
    let mut u = a;
    u.union(&b);
    assert_eq!(u.p_min, v(-5, 0, 0));
    assert_eq!(u.p_max, v(10, 20, 10));
    let mut up = a;
    up.union_point(&v(-7, 30, 5));
    assert_eq!(up.p_min, v(-7, 0, 0));
    assert_eq!(up.p_max, v(10, 30, 10));
}

#[test]
fn union_is_commutative_associative_idempotent() {
    let a = Bounds3 { p_min: v(0, 0, 0), p_max: v(10, 10, 10) };
    let b = Bounds3 { p_min: v(-5, 2, 3), p_max: v(4, 20, 6) };
    let c = Bounds3 { p_min: v(1, -9, 2), p_max: v(2, 3, 50) };
    assert_eq!(Bounds3::union2(&a, &b), Bounds3::union2(&b, &a));
    assert_eq!(
        Bounds3::union2(&Bounds3::union2(&a, &b), &c),
        Bounds3::union2(&a, &Bounds3::union2(&b, &c))
    );
    assert_eq!(Bounds3::union2(&a, &a), a);
    let empty = Bounds3::zero();
    assert_eq!(Bounds3::union2(&empty, &a), a);
}

#[test]
fn max_extent_prefers_x_on_ties() {
    let cube = Bounds3 { p_min: v(0, 0, 0), p_max: v(10, 10, 10) };
    assert_eq!(cube.max_extent_axis(), Axis::X);
    let tall = Bounds3 { p_min: v(0, 0, 0), p_max: v(1, 50, 10) };
    assert_eq!(tall.max_extent_axis(), Axis::Y);
}

#[test]
fn slab_test_handles_parallel_axes_exactly() {
    let b = Bounds3 { p_min: v(-1000, -1000, 4000), p_max: v(1000, 1000, 6000) };
    // ray along +z with zero x and y components, origin inside the slabs
    let hit = Ray::new(&v(0, 0, 0), &v(0, 0, 1000));
    assert!(b.intersect(&hit));
    // parallel ray whose origin is outside the x slab must miss
    let miss = Ray::new(&v(2000, 0, 0), &v(0, 0, 1000));
    assert!(!b.intersect(&miss));
    // box behind the origin must miss
    let behind = Ray::new(&v(0, 0, 7000), &v(0, 0, 1000));
    assert!(!b.intersect(&behind));
}

#[test]
fn triangle_intersect_is_exact() {
    let t = Triangle::new(&v(-1000, -1000, 5000), &v(0, 1000, 5000), &v(1000, -1000, 5000), 3, 7);
    assert_eq!(t.get_area(), 4_000_000);
    let ray = Ray::new(&v(0, 0, 0), &v(0, 0, 1000));
    let hit = t.intersect(&ray);
    assert!(hit.hit);
    let d = hit.distance.unwrap();
    // the exact parameter is 5 (five world units along the direction)
    assert_eq!(d.num, 5 * d.den);
    assert_eq!(hit.coords, v(0, 0, 5000));
    assert_eq!(hit.obj, Some(7));
    assert_eq!(hit.material, Some(3));

    // back face: approaching from the other side is culled
    let back = Ray::new(&v(0, 0, 10_000), &v(0, 0, -1000));
    assert!(!t.intersect(&back).hit);

    // ray pointing away misses
    let away = Ray::new(&v(0, 0, 0), &v(0, 0, -1000));
    assert!(!t.intersect(&away).hit);
}

#[test]
fn degenerate_triangle_always_misses() {
    // collinear vertices: the cross product is zero
    let t = Triangle::new(&v(0, 0, 5000), &v(1000, 0, 5000), &v(2000, 0, 5000), 0, 0);
    assert_eq!(t.get_area(), 0);
    let ray = Ray::new(&v(500, -1000, 0), &v(0, 0, 1000));
    assert!(!t.intersect(&ray).hit);
    let ray2 = Ray::new(&v(500, 0, 0), &v(0, 0, 1000));
    assert!(!t.intersect(&ray2).hit);
}

#[test]
fn triangle_sample_lies_in_bounds() {
    let t = Triangle::new(&v(-1000, -1000, 5000), &v(0, 1000, 5000), &v(1000, -1000, 5000), 0, 0);
    for _ in 0..64 {
        let (inter, pdf) = t.sample();
        assert!(inter.hit);
        assert_eq!(pdf.num, 2);
        assert_eq!(pdf.den, 4_000_000);
        let b = t.get_bounds();
        assert!(b.p_min.x <= inter.coords.x && inter.coords.x <= b.p_max.x);
        assert!(b.p_min.y <= inter.coords.y && inter.coords.y <= b.p_max.y);
        assert!(b.p_min.z - 1 <= inter.coords.z && inter.coords.z <= b.p_max.z + 1);
    }
}

#[test]
fn triangle_sample_mean_near_centroid() {
    let t = Triangle::new(&v(-1000, -1000, 5000), &v(0, 1000, 5000), &v(1000, -1000, 5000), 0, 0);
    let n = 4000i64;
    let mut sx = 0i64;
    let mut sy = 0i64;
    for _ in 0..n {
        let (inter, _) = t.sample();
        sx += inter.coords.x;
        sy += inter.coords.y;
    }
    let mx = sx / n;
    let my = sy / n;
    // centroid is (0, -333); allow generous Monte-Carlo noise
    assert!(mx.abs() < 120, "mean x {}", mx);
    assert!((my + 333).abs() < 120, "mean y {}", my);
}
