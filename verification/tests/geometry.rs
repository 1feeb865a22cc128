use std::rc::Rc;

use raytracer::fixed::Fixed;
use raytracer::hittable::aabb::Aabb;
use raytracer::hittable::sphere::Sphere;
use raytracer::material::Lambertian;
use raytracer::material::Material;
use raytracer::ray::Ray;
use raytracer::vec3::Vec3;

fn fx(raw: i64) -> Fixed {
    Fixed::from_raw(raw)
}

fn v(x: i64, y: i64, z: i64) -> Vec3 {
    Vec3(fx(x), fx(y), fx(z))
}

fn grey() -> Rc<Material> {
    Rc::new(Material::Lambertian(Lambertian::solid(v(500_000, 500_000, 500_000))))
}

#[test]
fn box_is_hit_along_x_with_entry_at_four() {
    let b = Aabb::new(v(-1_000_000, -1_000_000, -1_000_000), v(1_000_000, 1_000_000, 1_000_000));
    let ray = Ray::new(v(-5_000_000, 0, 0), v(1_000_000, 0, 0), fx(0));
    assert!(b.hit(&ray, fx(0), Fixed::max_value()));
    assert_eq!(b.clip(&ray, fx(0), Fixed::max_value()), Some((fx(3_999_999), fx(6_000_001))));
    assert!(b.hit(&ray, fx(0), fx(4_000_000)));
    assert!(!b.hit(&ray, fx(0), fx(3_999_999)));
    assert!(b.holds(ray.at(fx(4_000_000))));
    assert!(!b.holds(ray.at(fx(3_999_999))));
}

#[test]
fn box_is_missed_by_parallel_ray_outside_slab() {
    let b = Aabb::new(v(-1_000_000, -1_000_000, -1_000_000), v(1_000_000, 1_000_000, 1_000_000));
    let ray = Ray::new(v(-5_000_000, 0, 0), v(0, 1_000_000, 0), fx(0));
    assert!(!b.hit(&ray, fx(0), Fixed::max_value()));
}

#[test]
fn sphere_is_hit_front_and_back() {
    let sphere = Sphere::new(v(0, 0, -1_000_000), fx(500_000), grey());
    let ray = Ray::new(v(0, 0, 0), v(0, 0, -1_000_000), fx(0));
    let near = sphere.hit(ray, fx(1_000), Fixed::max_value()).unwrap();
    assert_eq!(near.t, fx(500_000));
    assert!(near.front_face);
    assert_eq!(near.normal, v(0, 0, 1_000_000));
    let far = sphere.hit(ray, fx(600_000), Fixed::max_value()).unwrap();
    assert_eq!(far.t, fx(1_500_000));
    assert!(!far.front_face);
}

#[test]
fn merged_box_holds_both_in_either_order() {
    let a = Aabb::new(v(-1_000_000, 0, 2_000_000), v(1_000_000, 3_000_000, 4_000_000));
    let b = Aabb::new(v(0, -2_000_000, 3_000_000), v(5_000_000, 1_000_000, 3_500_000));
    let ab = Aabb::surrounding_box(a, b);
    let ba = Aabb::surrounding_box(b, a);
    assert_eq!(ab, ba);
    assert_eq!(ab.min(), v(-1_000_000, -2_000_000, 2_000_000));
    assert_eq!(ab.max(), v(5_000_000, 3_000_000, 4_000_000));
    for i in 0..3 {
        assert!(a.min().get(i).raw() >= ab.min().get(i).raw());
        assert!(a.max().get(i).raw() <= ab.max().get(i).raw());
        assert!(b.min().get(i).raw() >= ab.min().get(i).raw());
        assert!(b.max().get(i).raw() <= ab.max().get(i).raw());
    }
}

#[test]
fn box_interval_runs_from_axis_to_axis() {
    let b = Aabb::new(v(0, 0, 0), v(1_000_000, 1_000_000, 1_000_000));
    let past_the_corner = Ray::new(v(-1_000_000, 3_000_002, 500_000), v(1_000_000, -1_000_000, 0), fx(0));
    assert!(!b.hit(&past_the_corner, fx(0), Fixed::max_value()));
    let along_the_edge = Ray::new(v(-1_000_000, 3_000_000, 500_000), v(1_000_000, -1_000_000, 0), fx(0));
    assert!(b.holds(along_the_edge.at(fx(2_000_000))));
    assert!(b.hit(&along_the_edge, fx(0), Fixed::max_value()));
    let through = Ray::new(v(-1_000_000, 2_000_000, 500_000), v(1_000_000, -1_000_000, 0), fx(0));
    assert_eq!(
        b.clip(&through, fx(0), Fixed::max_value()),
        Some((fx(999_999), fx(2_000_001)))
    );
}

#[test]
fn box_is_hit_against_the_axis() {
    let b = Aabb::new(v(-1_000_000, -1_000_000, -1_000_000), v(1_000_000, 1_000_000, 1_000_000));
    let ray = Ray::new(v(5_000_000, 0, 0), v(-2_000_000, 0, 0), fx(0));
    assert_eq!(b.clip(&ray, fx(0), Fixed::max_value()), Some((fx(1_999_999), fx(3_000_001))));
    assert!(b.hit(&ray, fx(0), fx(2_000_000)));
    assert!(!b.hit(&ray, fx(0), fx(1_999_999)));
    assert!(!b.hit(&ray, fx(3_000_001), fx(9_000_000)));
    assert!(b.hit(&ray, fx(2_500_000), fx(9_000_000)));
}

#[test]
fn box_is_hit_by_a_ray_along_its_face() {
    let b = Aabb::new(v(-1_000_000, -1_000_000, -1_000_000), v(1_000_000, 1_000_000, 1_000_000));
    let on_the_face = Ray::new(v(-5_000_000, 1_000_000, 0), v(1_000_000, 0, 0), fx(0));
    assert!(b.hit(&on_the_face, fx(0), Fixed::max_value()));
    let beside = Ray::new(v(-5_000_000, 1_000_001, 0), v(1_000_000, 0, 0), fx(0));
    assert!(!b.hit(&beside, fx(0), Fixed::max_value()));
    let still = Ray::new(v(0, 0, 0), v(0, 0, 0), fx(0));
    assert!(b.hit(&still, fx(0), fx(1)));
    assert!(!b.hit(&still, fx(1), fx(1)));
}

#[test]
fn sphere_is_missed_beside_it() {
    let sphere = Sphere::new(v(0, 0, -1_000_000), fx(500_000), grey());
    let beside = Ray::new(v(1_000_000, 0, 0), v(0, 0, -1_000_000), fx(0));
    assert!(sphere.hit(beside, fx(1_000), Fixed::max_value()).is_none());
    let touching = Ray::new(v(500_000, 0, 0), v(0, 0, -1_000_000), fx(0));
    assert!(sphere.hit(touching, fx(1_000), Fixed::max_value()).is_none());
    let away = Ray::new(v(0, 0, 0), v(0, 0, 1_000_000), fx(0));
    assert!(sphere.hit(away, fx(1_000), Fixed::max_value()).is_none());
}

#[test]
fn sphere_hit_respects_the_interval() {
    let sphere = Sphere::new(v(0, 0, -1_000_000), fx(500_000), grey());
    let ray = Ray::new(v(0, 0, 0), v(0, 0, -1_000_000), fx(0));
    assert!(sphere.hit(ray, fx(1_000), fx(500_000)).is_none());
    assert_eq!(sphere.hit(ray, fx(1_000), fx(500_001)).unwrap().t, fx(500_000));
    assert_eq!(sphere.hit(ray, fx(500_000), fx(1_500_001)).unwrap().t, fx(1_500_000));
    assert!(sphere.hit(ray, fx(500_000), fx(1_500_000)).is_none());
    assert!(sphere.hit(ray, fx(1_500_000), Fixed::max_value()).is_none());
}

#[test]
fn sphere_record_holds_point_material_and_coordinates() {
    let material = grey();
    let sphere = Sphere::new(v(0, 0, 0), fx(2_000_000), Rc::clone(&material));
    let ray = Ray::new(v(0, 5_000_000, 0), v(0, -1_000_000, 0), fx(250_000));
    let record = sphere.hit(ray, fx(1_000), Fixed::max_value()).unwrap();
    assert_eq!(record.t, fx(3_000_000));
    assert_eq!(record.p, v(0, 2_000_000, 0));
    assert_eq!(record.normal, v(0, 1_000_000, 0));
    assert!(record.front_face);
    assert!(Rc::ptr_eq(&record.mat_ptr, &material));
    assert_eq!(record.v, fx(999_999));
    assert_eq!(record.u, fx(500_000));
}

#[test]
fn sphere_box_is_the_radius_to_each_side() {
    let sphere = Sphere::new(v(1_000_000, 2_000_000, 3_000_000), fx(500_000), grey());
    let b = sphere.bounding_box(fx(0), fx(1_000_000)).unwrap();
    assert_eq!(b.min(), v(500_000, 1_500_000, 2_500_000));
    assert_eq!(b.max(), v(1_500_000, 2_500_000, 3_500_000));
    assert_eq!(sphere.bounds(), b);
}

#[test]
fn box_is_met_by_a_ray_that_is_inside_for_one_step_only() {
    let b = Aabb::new(v(-5, -5, -5), v(5, 5, 5));
    let ray = Ray::new(v(0, 0, 0), v(10_000_000, 0, 0), fx(0));
    assert!(b.holds(ray.at(fx(0))));
    assert!(!b.holds(ray.at(fx(1))));
    assert!(b.hit(&ray, fx(-1_000_000), fx(1_000_000)));
    assert_eq!(b.clip(&ray, fx(-1_000_000), fx(1_000_000)), Some((fx(-1), fx(1))));
}

#[test]
fn box_is_met_wherever_the_ray_is_inside() {
    let boxes = [
        Aabb::new(v(-1_000_000, -1_000_000, -1_000_000), v(1_000_000, 1_000_000, 1_000_000)),
        Aabb::new(v(200_000, -1_000_000, -2_100), v(200_005, 1_000_000, -1_900)),
        Aabb::new(v(-7, 3, -2), v(-7, 3, -2)),
    ];
    let mut seed: i64 = 12345;
    let mut next = |span: i64| {
        seed = (seed.wrapping_mul(6364136223846793005).wrapping_add(1442695040888963407)) & i64::MAX;
        (seed >> 16) % (2 * span + 1) - span
    };
    let mut inside = 0;
    for _ in 0..20_000 {
        let b = boxes[(next(1) + 1) as usize];
        let target = v(
            b.min().x().raw() + next(3).abs().min(b.max().x().raw() - b.min().x().raw()),
            b.min().y().raw() + next(3).abs().min(b.max().y().raw() - b.min().y().raw()),
            b.min().z().raw() + next(3).abs().min(b.max().z().raw() - b.min().z().raw()),
        );
        let dir = v(next(200_000_000), next(3_000_000), next(40));
        let t = fx(next(5_000_000).abs() + 1);
        let ray = Ray::new(target.sub(dir.scale(t)), dir, fx(0));
        if b.holds(ray.at(t)) {
            inside += 1;
            assert!(b.hit(&ray, fx(0), Fixed::max_value()));
            assert!(b.hit(&ray, fx(t.raw() - 1), t));
            let (enter, leave) = b.clip(&ray, fx(0), Fixed::max_value()).unwrap();
            assert!(enter.raw() < t.raw() && t.raw() <= leave.raw());
        }
    }
    assert!(inside > 10_000);
}
