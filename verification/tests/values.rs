use raytracer::ray::Ray;
use raytracer::scalar::Scalar;
use raytracer::surface::hit::Hit;
use raytracer::vec3::{Point, Vec3};

fn s(x: f64) -> Scalar {
    Scalar::from_bits(x.to_bits())
}

fn v(x: f64, y: f64, z: f64) -> Vec3 {
    Vec3::new(s(x), s(y), s(z))
}

fn parts(a: Vec3) -> [u64; 3] {
    [a.x.to_bits(), a.y.to_bits(), a.z.to_bits()]
}

fn numbers(a: Vec3) -> [f64; 3] {
    [
        f64::from_bits(a.x.to_bits()),
        f64::from_bits(a.y.to_bits()),
        f64::from_bits(a.z.to_bits()),
    ]
}

#[test]
fn vec3_new_keeps_its_components() {
    let a = v(1.0, -2.5, 3.25);
    assert_eq!(numbers(a), [1.0, -2.5, 3.25]);
}

#[test]
fn vec3_zero_is_three_positive_zeros() {
    assert_eq!(parts(Vec3::zero()), [0, 0, 0]);
    assert_eq!(numbers(Vec3::zero()), [0.0, 0.0, 0.0]);
}

#[test]
fn vec3_neg_flips_every_component() {
    let a = v(1.0, -2.5, 0.0).neg();
    assert_eq!(parts(a), [(-1.0f64).to_bits(), 2.5f64.to_bits(), (-0.0f64).to_bits()]);
}

#[test]
fn vec3_neg_twice_gives_the_vector_back() {
    let a = v(1.0, f64::NAN, f64::NEG_INFINITY);
    assert_eq!(parts(a.neg().neg()), parts(a));
}

#[test]
fn vec3_is_a_plain_copyable_value() {
    let a = v(1.0, 2.0, 3.0);
    let b = a;
    let c: Point = a.clone();
    assert_eq!(parts(a), parts(b));
    assert_eq!(parts(a), parts(c));
}

#[test]
fn ray_new_keeps_origin_and_direction() {
    let r = Ray::new(v(1.0, 2.0, 3.0), v(0.0, 0.0, -1.0));
    assert_eq!(numbers(r.origin), [1.0, 2.0, 3.0]);
    assert_eq!(numbers(r.direction), [0.0, 0.0, -1.0]);
}

#[test]
fn ray_accepts_a_zero_direction() {
    let r = Ray::new(v(1.0, 2.0, 3.0), Vec3::zero());
    assert_eq!(parts(r.direction), [0, 0, 0]);
    let copy = r;
    assert_eq!(parts(copy.origin), parts(r.origin));
}

#[test]
fn hit_from_outside_keeps_the_outward_normal() {
    let n = v(0.0, 0.0, 1.0);
    let h = Hit::new(v(0.0, 0.0, 1.0), s(2.0), n, s(-1.0));
    assert!(h.front_face);
    assert_eq!(parts(h.normal), parts(n));
    assert_eq!(h.t.to_bits(), 2.0f64.to_bits());
    assert_eq!(numbers(h.p), [0.0, 0.0, 1.0]);
}

#[test]
fn hit_from_inside_stores_the_negated_normal() {
    let n = v(0.0, 0.0, 1.0);
    let h = Hit::new(v(0.0, 0.0, 1.0), s(2.0), n, s(1.0));
    assert!(!h.front_face);
    assert_eq!(numbers(h.normal), [-0.0, -0.0, -1.0]);
    assert_eq!(parts(h.normal), parts(n.neg()));
    assert_eq!(h.t.to_bits(), 2.0f64.to_bits());
}

#[test]
fn hit_that_grazes_is_not_a_front_face() {
    let n = v(0.0, 1.0, 0.0);
    let h = Hit::new(v(1.0, 0.0, 0.0), s(1.0), n, s(0.0));
    assert!(!h.front_face);
    assert_eq!(parts(h.normal), parts(n.neg()));
}

#[test]
fn hit_with_negative_zero_dot_product_is_not_a_front_face() {
    let n = v(0.0, 1.0, 0.0);
    let h = Hit::new(v(1.0, 0.0, 0.0), s(1.0), n, s(-0.0));
    assert!(!h.front_face);
    assert_eq!(parts(h.normal), parts(n.neg()));
}

#[test]
fn hit_with_the_smallest_negative_dot_product_is_a_front_face() {
    let n = v(0.0, 1.0, 0.0);
    let h = Hit::new(v(1.0, 0.0, 0.0), s(1.0), n, s(-f64::from_bits(1)));
    assert!(h.front_face);
    assert_eq!(parts(h.normal), parts(n));
}

#[test]
fn hit_with_a_nan_dot_product_is_not_a_front_face() {
    let n = v(0.0, 1.0, 0.0);
    let h = Hit::new(v(1.0, 0.0, 0.0), s(1.0), n, s(f64::NAN));
    assert!(!h.front_face);
    assert_eq!(parts(h.normal), parts(n.neg()));
}

#[test]
fn hit_front_face_follows_the_sign_of_a_computed_dot_product() {
    let directions = [[0.0, 0.0, -1.0], [0.0, 0.0, 1.0], [1.0, 0.0, 0.0], [0.3, -0.4, -0.5]];
    let outward = [0.0, 0.0, 1.0];
    for d in directions {
        let dot: f64 = d[0] * outward[0] + d[1] * outward[1] + d[2] * outward[2];
        let n = v(outward[0], outward[1], outward[2]);
        let h = Hit::new(v(0.0, 0.0, 0.0), s(1.0), n, s(dot));
        assert_eq!(h.front_face, dot < 0.0);
        let expected = if dot < 0.0 { outward } else { [-0.0, -0.0, -1.0] };
        assert_eq!(parts(h.normal), [
            expected[0].to_bits(),
            expected[1].to_bits(),
            expected[2].to_bits()
        ]);
    }
}

#[test]
fn hit_does_not_normalize_what_it_is_given() {
    let n = v(3.0, 0.0, 4.0);
    let h = Hit::new(v(0.0, 0.0, 0.0), s(1.0), n, s(-2.0));
    assert_eq!(numbers(h.normal), [3.0, 0.0, 4.0]);
}
