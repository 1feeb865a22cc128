use std::cmp::Ordering;
use std::rc::Rc;

use raytracer::fixed::Fixed;
use raytracer::hittable::aabb::box_x_compare;
use raytracer::hittable::aabb::box_y_compare;
use raytracer::hittable::aabb::box_z_compare;
use raytracer::hittable::bvh_node::BvhNode;
use raytracer::hittable::closest::hit_is_in_box;
use raytracer::hittable::movable_sphere::MovableSphere;
use raytracer::hittable::rectangle::XYRect;
use raytracer::hittable::sphere::get_sphere_uv;
use raytracer::hittable::sphere::Sphere;
use raytracer::hittable::HitRecord;
use raytracer::hittable::Hittable;
use raytracer::hittable::HittableList;
use raytracer::material::Lambertian;
use raytracer::material::Material;
use raytracer::random::RandomSource;
use raytracer::ray::Ray;
use raytracer::vec3::Vec3;

fn fx(raw: i64) -> Fixed {
    Fixed::from_raw(raw)
}

fn v(x: i64, y: i64, z: i64) -> Vec3 {
    Vec3(fx(x), fx(y), fx(z))
}

fn grey() -> Rc<Material> {
    Rc::new(Material::Lambertian(Lambertian::solid(v(500_000, 500_000, 500_000))))
}

fn ball(x: i64, y: i64, z: i64, radius: i64) -> Rc<Hittable> {
    Rc::new(Hittable::Sphere(Sphere::new(Vec3::from_ints(x, y, z), Fixed::from_int(radius), grey())))
}

fn list_of(objects: &[Rc<Hittable>]) -> HittableList {
    let mut list = HittableList::new();
    for object in objects {
        list.push(Rc::clone(object));
    }
    list
}

fn distance(hit: Option<HitRecord>) -> Option<Fixed> {
    hit.map(|record| record.t)
}

#[test]
fn record_faces_the_ray_at_the_end_of_the_range() {
    let ray = Ray::new(v(0, 0, 0), v(-15_625, 1_000_000, 0), fx(0));
    let outward = Vec3(Fixed::min_value(), fx(-(1i64 << 57)), fx(0));
    let record = HitRecord::new(v(0, 0, 0), fx(1), fx(0), fx(0), outward, &grey(), &ray);
    assert!(record.front_face);
    assert_eq!(record.normal, outward);
    assert_eq!(Vec3::dot(ray.direction(), record.normal), fx(-1));
    let along = Ray::new(v(0, 0, 0), v(-1_000_000, 0, 0), fx(0));
    let least = Vec3(Fixed::min_value(), fx(0), fx(0));
    let record = HitRecord::new(v(0, 0, 0), fx(1), fx(0), fx(0), least, &grey(), &along);
    assert!(!record.front_face);
    assert_eq!(record.normal, Vec3(Fixed::max_value(), fx(0), fx(0)));
    assert_eq!(Vec3::dot(along.direction(), record.normal), Fixed::min_value());
    assert_eq!(Fixed::min_value().neg().neg(), Fixed::min_value());
    assert_eq!(Fixed::min_value().raw(), -i64::MAX);
}

#[test]
fn record_faces_the_ray() {
    let ray = Ray::new(v(0, 0, 0), v(0, 0, -1_000_000), fx(0));
    let material = grey();
    let outside = HitRecord::new(v(0, 0, -1), fx(1), fx(2), fx(3), v(0, 0, 1_000_000), &material, &ray);
    assert!(outside.front_face);
    assert_eq!(outside.normal, v(0, 0, 1_000_000));
    assert_eq!((outside.t, outside.u, outside.v), (fx(1), fx(2), fx(3)));
    assert!(Rc::ptr_eq(&outside.mat_ptr, &material));
    let inside = HitRecord::new(v(0, 0, -1), fx(1), fx(2), fx(3), v(0, 0, -1_000_000), &material, &ray);
    assert!(!inside.front_face);
    assert_eq!(inside.normal, v(0, 0, 1_000_000));
}

#[test]
fn sphere_coordinates_at_the_poles_and_the_equator() {
    assert_eq!(get_sphere_uv(&v(0, 1_000_000, 0)).1, fx(999_999));
    assert_eq!(get_sphere_uv(&v(0, -1_000_000, 0)).1, fx(0));
    let east = get_sphere_uv(&v(1_000_000, 0, 0));
    assert_eq!(east, (fx(500_000), fx(499_999)));
    let west = get_sphere_uv(&v(-1_000_000, 0, 0));
    assert_eq!(west.0, fx(0));
    let south = get_sphere_uv(&v(0, 0, 1_000_000));
    assert!((south.0.raw() - 250_000).abs() <= 1);
    let north = get_sphere_uv(&v(0, 0, -1_000_000));
    assert!((north.0.raw() - 750_000).abs() <= 1);
}

#[test]
fn moving_sphere_moves_on_a_line() {
    let sphere = MovableSphere::new(
        Vec3::from_ints(0, 0, 0),
        Vec3::from_ints(4, 2, 0),
        fx(0),
        Fixed::from_int(2),
        Fixed::from_int(1),
        grey(),
    );
    assert_eq!(sphere.center(fx(0)), Vec3::from_ints(0, 0, 0));
    assert_eq!(sphere.center(Fixed::from_int(1)), Vec3::from_ints(2, 1, 0));
    assert_eq!(sphere.center(Fixed::from_int(2)), Vec3::from_ints(4, 2, 0));
    assert_eq!(sphere.center(fx(500_000)), v(1_000_000, 500_000, 0));
    assert_eq!(sphere.center(Fixed::from_int(4)), Vec3::from_ints(8, 4, 0));
}

#[test]
fn moving_sphere_is_hit_where_it_is_at_the_time_of_the_ray() {
    let sphere = MovableSphere::new(
        Vec3::from_ints(0, 0, -5),
        Vec3::from_ints(4, 0, -5),
        fx(0),
        Fixed::from_int(1),
        Fixed::from_int(1),
        grey(),
    );
    let early = Ray::new(v(0, 0, 0), v(0, 0, -1_000_000), fx(0));
    let late = Ray::new(v(0, 0, 0), v(0, 0, -1_000_000), Fixed::from_int(1));
    assert_eq!(sphere.hit(early, fx(1_000), Fixed::max_value()).unwrap().t, Fixed::from_int(4));
    assert!(sphere.hit(late, fx(1_000), Fixed::max_value()).is_none());
    let late_there = Ray::new(Vec3::from_ints(4, 0, 0), v(0, 0, -1_000_000), Fixed::from_int(1));
    let record = sphere.hit(late_there, fx(1_000), Fixed::max_value()).unwrap();
    assert_eq!(record.t, Fixed::from_int(4));
    assert_eq!(record.normal, Vec3::from_ints(0, 0, 1));
}

#[test]
fn moving_sphere_box_joins_the_boxes_at_both_times() {
    let sphere = MovableSphere::new(
        Vec3::from_ints(0, 0, 0),
        Vec3::from_ints(4, -2, 0),
        fx(0),
        Fixed::from_int(1),
        Fixed::from_int(1),
        grey(),
    );
    let b = sphere.bounding_box(fx(0), Fixed::from_int(1)).unwrap();
    assert_eq!(b.min(), Vec3::from_ints(-1, -3, -1));
    assert_eq!(b.max(), Vec3::from_ints(5, 1, 1));
    let at_start = sphere.bounding_box(fx(0), fx(0)).unwrap();
    assert_eq!(at_start.min(), Vec3::from_ints(-1, -1, -1));
    assert_eq!(at_start.max(), Vec3::from_ints(1, 1, 1));
}

#[test]
fn rectangle_is_hit_inside_and_missed_outside() {
    let rect = XYRect::new(
        Fixed::from_int(3),
        Fixed::from_int(5),
        Fixed::from_int(1),
        Fixed::from_int(3),
        Fixed::from_int(-2),
        grey(),
    );
    let ray = Ray::new(v(3_500_000, 2_500_000, 0), v(0, 0, -1_000_000), fx(0));
    let record = rect.hit(ray, fx(1_000), Fixed::max_value()).unwrap();
    assert_eq!(record.t, Fixed::from_int(2));
    assert_eq!(record.p, v(3_500_000, 2_500_000, -2_000_000));
    assert_eq!(record.u, fx(250_000));
    assert_eq!(record.v, fx(750_000));
    assert_eq!(record.normal, Vec3::from_ints(0, 0, 1));
    assert!(record.front_face);
    let outside = Ray::new(v(5_000_001, 2_000_000, 0), v(0, 0, -1_000_000), fx(0));
    assert!(rect.hit(outside, fx(1_000), Fixed::max_value()).is_none());
    let on_the_edge = Ray::new(v(5_000_000, 3_000_000, 0), v(0, 0, -1_000_000), fx(0));
    assert!(rect.hit(on_the_edge, fx(1_000), Fixed::max_value()).is_some());
}

#[test]
fn rectangle_is_hit_from_behind_with_the_normal_turned() {
    let rect = XYRect::new(fx(0), fx(1_000_000), fx(0), fx(1_000_000), fx(0), grey());
    let ray = Ray::new(v(500_000, 500_000, -3_000_000), v(0, 0, 1_000_000), fx(0));
    let record = rect.hit(ray, fx(1_000), Fixed::max_value()).unwrap();
    assert!(!record.front_face);
    assert_eq!(record.normal, Vec3::from_ints(0, 0, -1));
}

#[test]
fn rectangle_interval_includes_its_ends() {
    let rect = XYRect::new(fx(0), fx(1_000_000), fx(0), fx(1_000_000), Fixed::from_int(-2), grey());
    let ray = Ray::new(v(500_000, 500_000, 0), v(0, 0, -1_000_000), fx(0));
    assert!(rect.hit(ray, Fixed::from_int(2), Fixed::from_int(3)).is_some());
    assert!(rect.hit(ray, Fixed::from_int(1), Fixed::from_int(2)).is_some());
    assert!(rect.hit(ray, fx(2_000_001), Fixed::from_int(3)).is_none());
    assert!(rect.hit(ray, Fixed::from_int(1), fx(1_999_999)).is_none());
}

#[test]
fn rectangle_is_missed_by_a_ray_along_its_plane() {
    let rect = XYRect::new(fx(0), fx(1_000_000), fx(0), fx(1_000_000), fx(0), grey());
    let along = Ray::new(v(-1_000_000, 500_000, 0), v(1_000_000, 0, 0), fx(0));
    assert!(rect.hit(along, fx(0), Fixed::max_value()).is_none());
    let still = Ray::new(v(500_000, 500_000, 0), v(0, 0, 0), fx(0));
    assert!(rect.hit(still, fx(0), Fixed::max_value()).is_none());
}

#[test]
fn rectangle_box_is_padded() {
    let rect = XYRect::new(
        Fixed::from_int(3),
        Fixed::from_int(5),
        Fixed::from_int(1),
        Fixed::from_int(3),
        Fixed::from_int(-2),
        grey(),
    );
    let b = rect.bounding_box(fx(0), fx(0)).unwrap();
    assert_eq!(b.min(), v(3_000_000, 1_000_000, -2_000_100));
    assert_eq!(b.max(), v(5_000_000, 3_000_000, -1_999_900));
    for i in 0..3 {
        assert!(b.min().get(i).raw() < b.max().get(i).raw());
    }
}

#[test]
fn empty_collection_has_no_hit_and_no_box() {
    let list = HittableList::new();
    assert!(list.is_empty());
    assert_eq!(list.len(), 0);
    let ray = Ray::new(v(0, 0, 0), v(0, 0, -1_000_000), fx(0));
    assert!(list.hit(ray, fx(1_000), Fixed::max_value()).is_none());
    assert!(list.bounding_box(fx(0), fx(1_000_000)).is_none());
}

#[test]
fn collection_reports_the_closest_hit() {
    let ray = Ray::new(v(0, 0, 0), v(0, 0, -1_000_000), fx(0));
    let near = ball(0, 0, -3, 1);
    let far = ball(0, 0, -10, 1);
    let aside = ball(50, 0, -3, 1);
    for order in [[&near, &far, &aside], [&far, &aside, &near], [&aside, &near, &far]] {
        let list = list_of(&[Rc::clone(order[0]), Rc::clone(order[1]), Rc::clone(order[2])]);
        assert_eq!(list.len(), 3);
        let record = list.hit(ray, fx(1_000), Fixed::max_value()).unwrap();
        assert_eq!(record.t, Fixed::from_int(2));
        assert_eq!(record.p, Vec3::from_ints(0, 0, -2));
    }
    let list = list_of(&[near, far, aside]);
    assert_eq!(distance(list.hit(ray, Fixed::from_int(5), Fixed::max_value())), Some(Fixed::from_int(9)));
    assert!(list.hit(ray, fx(1_000), Fixed::from_int(2)).is_none());
}

#[test]
fn collection_box_merges_all_boxes() {
    let list = list_of(&[ball(0, 0, -3, 1), ball(0, 5, -10, 2), ball(-4, 0, 0, 1)]);
    let b = list.bounding_box(fx(0), fx(0)).unwrap();
    assert_eq!(b.min(), Vec3::from_ints(-5, -1, -12));
    assert_eq!(b.max(), Vec3::from_ints(2, 7, 1));
    let single = list_of(&[ball(0, 0, -3, 1)]);
    let b = single.bounding_box(fx(0), fx(0)).unwrap();
    assert_eq!(b.min(), Vec3::from_ints(-1, -1, -4));
}

#[test]
fn shapes_are_compared_by_the_least_corner_of_their_boxes() {
    let a = ball(0, 5, -3, 1);
    let b = ball(2, 5, -10, 3);
    assert_eq!(box_x_compare(&a, &b), Ordering::Equal);
    assert_eq!(box_y_compare(&a, &b), Ordering::Greater);
    assert_eq!(box_z_compare(&a, &b), Ordering::Greater);
    assert_eq!(box_z_compare(&b, &a), Ordering::Less);
    assert_eq!(box_y_compare(&b, &a), Ordering::Less);
}

#[test]
fn tree_of_one_object_holds_it_twice() {
    let object = ball(0, 0, -3, 1);
    let node = BvhNode::with_axes(list_of(&[Rc::clone(&object)]), &vec![0], fx(0), fx(0));
    assert!(Rc::ptr_eq(&node.left, &object));
    assert!(Rc::ptr_eq(&node.right, &object));
    assert_eq!(node.bounding_box, object.bounds(fx(0), fx(0)));
    assert_eq!(node.bounding_box(fx(0), fx(0)), Some(node.bounding_box));
    let ray = Ray::new(v(0, 0, 0), v(0, 0, -1_000_000), fx(0));
    assert_eq!(distance(node.hit(ray, fx(1_000), Fixed::max_value())), Some(Fixed::from_int(2)));
}

#[test]
fn tree_of_two_objects_orders_them_along_the_axis() {
    let low = ball(-5, 3, 0, 1);
    let high = ball(5, -3, 0, 1);
    let by_x = BvhNode::with_axes(list_of(&[Rc::clone(&high), Rc::clone(&low)]), &vec![0, 0], fx(0), fx(0));
    assert!(Rc::ptr_eq(&by_x.left, &low));
    assert!(Rc::ptr_eq(&by_x.right, &high));
    let by_y = BvhNode::with_axes(list_of(&[Rc::clone(&high), Rc::clone(&low)]), &vec![0, 1], fx(0), fx(0));
    assert!(Rc::ptr_eq(&by_y.left, &high));
    assert!(Rc::ptr_eq(&by_y.right, &low));
    let equal = BvhNode::with_axes(list_of(&[Rc::clone(&high), Rc::clone(&low)]), &vec![0, 2], fx(0), fx(0));
    assert!(Rc::ptr_eq(&equal.left, &low));
    assert!(Rc::ptr_eq(&equal.right, &high));
    assert_eq!(by_x.bounding_box.min(), Vec3::from_ints(-6, -4, -1));
    assert_eq!(by_x.bounding_box.max(), Vec3::from_ints(6, 4, 1));
}

#[test]
fn tree_of_five_objects_sorts_and_splits_in_the_middle() {
    let objects = [ball(8, 0, 0, 1), ball(2, 0, 0, 1), ball(6, 0, 0, 1), ball(0, 0, 0, 1), ball(4, 0, 0, 1)];
    let node = BvhNode::with_axes(list_of(&objects), &vec![0, 0, 0, 0, 0], fx(0), fx(0));
    let left = match &*node.left {
        Hittable::Bvh(inner) => inner,
        _ => panic!("the left child of a node over five objects is a node"),
    };
    let right = match &*node.right {
        Hittable::Bvh(inner) => inner,
        _ => panic!("the right child of a node over five objects is a node"),
    };
    assert!(Rc::ptr_eq(&left.left, &objects[3]));
    assert!(Rc::ptr_eq(&left.right, &objects[1]));
    assert_eq!(left.bounding_box.min(), Vec3::from_ints(-1, -1, -1));
    assert_eq!(left.bounding_box.max(), Vec3::from_ints(3, 1, 1));
    assert_eq!(right.bounding_box.min(), Vec3::from_ints(3, -1, -1));
    assert_eq!(right.bounding_box.max(), Vec3::from_ints(9, 1, 1));
    let right_left = match &*right.left {
        Hittable::Bvh(inner) => inner,
        _ => panic!("a part of three objects is split again"),
    };
    assert!(Rc::ptr_eq(&right_left.left, &objects[4]));
    assert!(Rc::ptr_eq(&right_left.right, &objects[4]));
    let right_right = match &*right.right {
        Hittable::Bvh(inner) => inner,
        _ => panic!("a part of three objects is split again"),
    };
    assert!(Rc::ptr_eq(&right_right.left, &objects[2]));
    assert!(Rc::ptr_eq(&right_right.right, &objects[0]));
    assert_eq!(node.bounding_box.min(), Vec3::from_ints(-1, -1, -1));
    assert_eq!(node.bounding_box.max(), Vec3::from_ints(9, 1, 1));
}

#[test]
fn tree_sort_keeps_equal_keys_in_order() {
    let objects = [ball(3, 1, 0, 1), ball(3, 2, 0, 1), ball(3, 3, 0, 1)];
    let node = BvhNode::with_axes(list_of(&objects), &vec![0, 0, 0], fx(0), fx(0));
    let left = match &*node.left {
        Hittable::Bvh(inner) => inner,
        _ => panic!("the left child of a node over three objects is a node"),
    };
    assert!(Rc::ptr_eq(&left.left, &objects[0]));
    let right = match &*node.right {
        Hittable::Bvh(inner) => inner,
        _ => panic!("the right child of a node over three objects is a node"),
    };
    assert!(Rc::ptr_eq(&right.left, &objects[2]));
    assert!(Rc::ptr_eq(&right.right, &objects[1]));
}

#[test]
fn tree_prunes_by_its_box_and_prefers_the_closer_child() {
    let near = ball(0, 0, -3, 1);
    let far = ball(0, 0, -10, 1);
    let ray = Ray::new(v(0, 0, 0), v(0, 0, -1_000_000), fx(0));
    for axes in [vec![0, 2], vec![0, 0]] {
        let node = BvhNode::with_axes(list_of(&[Rc::clone(&near), Rc::clone(&far)]), &axes, fx(0), fx(0));
        assert_eq!(distance(node.hit(ray, fx(1_000), Fixed::max_value())), Some(Fixed::from_int(2)));
        assert_eq!(distance(node.hit(ray, Fixed::from_int(5), Fixed::max_value())), Some(Fixed::from_int(9)));
        let aside = Ray::new(Vec3::from_ints(5, 0, 0), v(0, 0, -1_000_000), fx(0));
        assert!(node.hit(aside, fx(1_000), Fixed::max_value()).is_none());
    }
}

fn scattered_balls(rng: &mut RandomSource, count: usize) -> Vec<Rc<Hittable>> {
    let mut objects = Vec::new();
    for _ in 0..count {
        let center = Vec3::rand_with_range(rng, Fixed::from_int(-10), Fixed::from_int(10));
        let radius = Fixed::from_raw(rng.range(200_000, 1_500_000));
        objects.push(Rc::new(Hittable::Sphere(Sphere::new(center, radius, grey()))));
    }
    objects
}

#[test]
fn tree_and_collection_agree_on_random_rays() {
    for seed in [1u64, 2, 3] {
        let mut rng = RandomSource::from_seed(seed);
        let objects = scattered_balls(&mut rng, 60);
        let list = list_of(&objects);
        let node = BvhNode::new(list_of(&objects), fx(0), Fixed::from_int(1), &mut rng);
        let mut hits = 0;
        let mut checked = 0;
        for _ in 0..2000 {
            let origin = Vec3::rand_with_range(&mut rng, Fixed::from_int(-20), Fixed::from_int(20));
            let target = Vec3::rand_with_range(&mut rng, Fixed::from_int(-10), Fixed::from_int(10));
            let ray = Ray::new(origin, target.sub(origin), fx(0));
            let flat = distance(list.hit(ray, fx(1_000), Fixed::max_value()));
            let tree = distance(node.hit(ray, fx(1_000), Fixed::max_value()));
            if objects.iter().all(|o| hit_is_in_box(o, ray, fx(1_000), fx(0), Fixed::from_int(1))) {
                assert_eq!(flat, tree);
                checked += 1;
            }
            if flat.is_some() {
                hits += 1;
            }
        }
        assert!(hits > 200);
        assert!(checked > 1900);
    }
}

#[test]
fn tree_agrees_with_collection_for_every_plan_of_axes() {
    let mut rng = RandomSource::from_seed(11);
    let objects = scattered_balls(&mut rng, 7);
    let list = list_of(&objects);
    let ray = Ray::new(Vec3::from_ints(0, 0, 30), v(0, 0, -1_000_000), fx(0));
    let rays = [
        ray,
        Ray::new(Vec3::from_ints(-30, 1, 2), v(1_000_000, 0, 0), fx(0)),
        Ray::new(Vec3::from_ints(3, 30, -4), v(0, -1_000_000, 0), fx(0)),
    ];
    for plan in 0..2187u32 {
        let mut axes = Vec::new();
        let mut rest = plan;
        for _ in 0..7 {
            axes.push((rest % 3) as u8);
            rest /= 3;
        }
        let node = BvhNode::with_axes(list_of(&objects), &axes, fx(0), fx(0));
        for ray in rays {
            assert_eq!(
                distance(node.hit(ray, fx(1_000), Fixed::max_value())),
                distance(list.hit(ray, fx(1_000), Fixed::max_value()))
            );
        }
    }
}

#[test]
fn any_shape_answers_as_its_kind_does() {
    let sphere = Sphere::new(Vec3::from_ints(0, 0, -3), Fixed::from_int(1), grey());
    let ray = Ray::new(v(0, 0, 0), v(0, 0, -1_000_000), fx(0));
    let direct = sphere.hit(ray, fx(1_000), Fixed::max_value()).unwrap();
    let wrapped = Hittable::Sphere(sphere);
    let through = wrapped.hit(ray, fx(1_000), Fixed::max_value()).unwrap();
    assert_eq!(direct.t, through.t);
    assert_eq!(direct.p, through.p);
    assert_eq!(wrapped.bounding_box(fx(0), fx(0)).unwrap().min(), Vec3::from_ints(-1, -1, -4));
    let rect = Hittable::XYRect(XYRect::new(fx(-1_000_000), fx(1_000_000), fx(-1_000_000), fx(1_000_000), Fixed::from_int(-2), grey()));
    assert_eq!(rect.hit(ray, fx(1_000), Fixed::max_value()).unwrap().t, Fixed::from_int(2));
    let moving = Hittable::MovableSphere(MovableSphere::new(
        Vec3::from_ints(0, 0, -5),
        Vec3::from_ints(0, 0, -7),
        fx(0),
        Fixed::from_int(1),
        Fixed::from_int(1),
        grey(),
    ));
    assert_eq!(moving.hit(ray, fx(1_000), Fixed::max_value()).unwrap().t, Fixed::from_int(4));
    assert_eq!(moving.bounds(fx(0), Fixed::from_int(1)).min(), Vec3::from_ints(-1, -1, -8));
}

#[test]
fn rounding_lets_a_sphere_be_hit_outside_its_box() {
    let object = ball(0, 0, 0, 1);
    let ray = Ray::new(v(999_990, -1_000_000_000, 0), v(1, 1_000_000, 0), fx(0));
    let list = list_of(&[Rc::clone(&object)]);
    let node = BvhNode::with_axes(list_of(&[Rc::clone(&object)]), &vec![0], fx(0), fx(0));
    let record = list.hit(ray, fx(1_000), Fixed::max_value()).unwrap();
    assert_eq!(record.t, fx(999_995_528));
    assert_eq!(record.p, v(1_000_989, -4_472, 0));
    assert!(!node.bounding_box.holds(record.p));
    assert!(!hit_is_in_box(&object, ray, fx(1_000), fx(0), fx(0)));
    assert!(!node.bounding_box.hit(&ray, fx(1_000), Fixed::max_value()));
    assert_eq!(distance(node.hit(ray, fx(1_000), Fixed::max_value())), None);
}

#[test]
fn tree_finds_a_sphere_that_is_hit_at_the_edge_of_its_box() {
    let object = ball(0, 0, 0, 1);
    let ray = Ray::new(v(999_997, -5_000_000, 0), v(1, 1_000_000, 0), fx(0));
    let list = list_of(&[Rc::clone(&object)]);
    let node = BvhNode::with_axes(list_of(&[Rc::clone(&object)]), &vec![0], fx(0), fx(0));
    assert_eq!(distance(list.hit(ray, fx(1_000), Fixed::max_value())), Some(fx(4_997_551)));
    assert_eq!(distance(node.hit(ray, fx(1_000), Fixed::max_value())), Some(fx(4_997_551)));
}

fn strip(x0: i64, x1: i64, k: i64) -> Rc<Hittable> {
    Rc::new(Hittable::XYRect(XYRect::new(fx(x0), fx(x1), fx(-1_000_000), fx(1_000_000), fx(k), grey())))
}

#[test]
fn tree_finds_a_thin_rectangle() {
    let thin = strip(200_000, 200_005, -2_000);
    let ray = Ray::new(v(0, 0, 0), v(100_000_000, 0, -1_000_000), fx(0));
    assert!(hit_is_in_box(&thin, ray, fx(1_000), fx(0), fx(0)));
    let list = list_of(&[Rc::clone(&thin)]);
    let mut rng = RandomSource::from_seed(5);
    let node = BvhNode::new(list_of(&[Rc::clone(&thin)]), fx(0), fx(0), &mut rng);
    assert_eq!(distance(list.hit(ray, fx(1_000), Fixed::max_value())), Some(fx(2_000)));
    assert_eq!(distance(node.hit(ray, fx(1_000), Fixed::max_value())), Some(fx(2_000)));
}

#[test]
fn tree_returns_the_closest_of_three_rectangles() {
    let objects = [strip(200_000, 200_005, -2_000), strip(0, 90_000_000, -500_000), strip(0, 90_000_000, -600_000)];
    let ray = Ray::new(v(0, 0, 0), v(100_000_000, 0, -1_000_000), fx(0));
    for object in &objects {
        assert!(hit_is_in_box(object, ray, fx(1_000), fx(0), fx(0)));
    }
    let list = list_of(&objects);
    for axes in [vec![0, 0, 0], vec![1, 2, 0], vec![2, 1, 1]] {
        let node = BvhNode::with_axes(list_of(&objects), &axes, fx(0), fx(0));
        assert_eq!(distance(node.hit(ray, fx(1_000), Fixed::max_value())), Some(fx(2_000)));
    }
    assert_eq!(distance(list.hit(ray, fx(1_000), Fixed::max_value())), Some(fx(2_000)));
}

#[test]
fn collection_is_an_object_of_its_own() {
    let ray = Ray::new(v(0, 0, 0), v(0, 0, -1_000_000), fx(0));
    let inner = Hittable::List(list_of(&[ball(0, 0, -10, 1), ball(0, 0, -3, 1)]));
    assert_eq!(distance(inner.hit(ray, fx(1_000), Fixed::max_value())), Some(Fixed::from_int(2)));
    let b = inner.bounding_box(fx(0), fx(0)).unwrap();
    assert_eq!(b.min(), Vec3::from_ints(-1, -1, -11));
    assert_eq!(b.max(), Vec3::from_ints(1, 1, -2));
    assert_eq!(inner.bounds(fx(0), fx(0)), b);
    let outer = list_of(&[ball(0, 0, -6, 1), Rc::new(inner), ball(5, 5, 5, 1)]);
    assert_eq!(distance(outer.hit(ray, fx(1_000), Fixed::max_value())), Some(Fixed::from_int(2)));
    assert_eq!(distance(outer.hit(ray, Fixed::from_int(3), Fixed::max_value())), Some(Fixed::from_int(4)));
    assert_eq!(distance(outer.hit(ray, fx(4_500_000), Fixed::max_value())), Some(Fixed::from_int(5)));
    let b = outer.bounding_box(fx(0), fx(0)).unwrap();
    assert_eq!(b.min(), Vec3::from_ints(-1, -1, -11));
    assert_eq!(b.max(), Vec3::from_ints(6, 6, 6));
}

#[test]
fn collection_without_a_box_leaves_its_holder_without_one() {
    let empty: Rc<Hittable> = Rc::new(Hittable::List(HittableList::new()));
    assert!(empty.bounding_box(fx(0), fx(0)).is_none());
    let ray = Ray::new(v(0, 0, 0), v(0, 0, -1_000_000), fx(0));
    assert!(empty.hit(ray, fx(1_000), Fixed::max_value()).is_none());
    for objects in [
        vec![Rc::clone(&empty), ball(0, 0, -3, 1)],
        vec![ball(0, 0, -3, 1), Rc::clone(&empty)],
        vec![ball(0, 0, -3, 1), Rc::clone(&empty), ball(0, 0, -9, 1)],
    ] {
        let list = list_of(&objects);
        assert!(list.bounding_box(fx(0), fx(0)).is_none());
        assert_eq!(distance(list.hit(ray, fx(1_000), Fixed::max_value())), Some(Fixed::from_int(2)));
    }
}

#[test]
fn tree_over_collections_agrees_with_the_collection_of_them() {
    let mut rng = RandomSource::from_seed(21);
    let mut groups = Vec::new();
    for _ in 0..6 {
        let members = scattered_balls(&mut rng, 4);
        groups.push(Rc::new(Hittable::List(list_of(&members))));
    }
    let list = list_of(&groups);
    let node = BvhNode::new(list_of(&groups), fx(0), fx(0), &mut rng);
    assert_eq!(Some(node.bounding_box), list.bounding_box(fx(0), fx(0)));
    let mut hits = 0;
    for _ in 0..500 {
        let origin = Vec3::rand_with_range(&mut rng, Fixed::from_int(-20), Fixed::from_int(20));
        let target = Vec3::rand_with_range(&mut rng, Fixed::from_int(-10), Fixed::from_int(10));
        let ray = Ray::new(origin, target.sub(origin), fx(0));
        let flat = distance(list.hit(ray, fx(1_000), Fixed::max_value()));
        assert_eq!(flat, distance(node.hit(ray, fx(1_000), Fixed::max_value())));
        if flat.is_some() {
            hits += 1;
        }
    }
    assert!(hits > 30);
}

#[test]
fn tree_box_holds_the_box_of_every_object() {
    let mut rng = RandomSource::from_seed(31);
    let objects = scattered_balls(&mut rng, 25);
    let node = BvhNode::new(list_of(&objects), fx(0), Fixed::from_int(1), &mut rng);
    let outer = node.bounding_box;
    for object in &objects {
        let inner = object.bounds(fx(0), Fixed::from_int(1));
        for i in 0..3 {
            assert!(inner.min().get(i).raw() <= inner.max().get(i).raw());
            assert!(outer.min().get(i).raw() <= inner.min().get(i).raw());
            assert!(inner.max().get(i).raw() <= outer.max().get(i).raw());
        }
    }
    assert_eq!(Some(outer), list_of(&objects).bounding_box(fx(0), Fixed::from_int(1)));
}

#[test]
fn sphere_coordinates_stay_between_zero_and_one() {
    let mut rng = RandomSource::from_seed(77);
    for _ in 0..2000 {
        let p = Vec3::rand_with_range(&mut rng, fx(-1_200_000), fx(1_200_000));
        let (u, w) = get_sphere_uv(&p);
        assert!(u.raw() >= 0 && u.raw() <= 1_000_000);
        assert!(w.raw() >= 0 && w.raw() <= 1_000_000);
    }
    for p in [v(i64::MIN, 0, 0), v(0, i64::MIN, i64::MAX), v(i64::MAX, i64::MAX, i64::MIN), v(0, 0, 0)] {
        let (u, w) = get_sphere_uv(&p);
        assert!(u.raw() >= 0 && u.raw() <= 1_000_000);
        assert!(w.raw() >= 0 && w.raw() <= 1_000_000);
    }
    assert_eq!(get_sphere_uv(&v(0, 0, 1_000_000)), (fx(250_001), fx(499_999)));
}

#[test]
fn tree_stands_in_a_collection_like_any_object() {
    let mut rng = RandomSource::from_seed(41);
    let inner = scattered_balls(&mut rng, 9);
    let tree: Rc<Hittable> =
        Rc::new(Hittable::Bvh(BvhNode::new(list_of(&inner), fx(0), fx(0), &mut rng)));
    let mut all = scattered_balls(&mut rng, 5);
    let mut flat = all.clone();
    flat.extend(inner.iter().cloned());
    all.insert(2, tree);
    let nested = list_of(&all);
    let plain = list_of(&flat);
    let outer = BvhNode::new(list_of(&all), fx(0), fx(0), &mut rng);
    let mut hits = 0;
    for _ in 0..4000 {
        let origin = Vec3::rand_with_range(&mut rng, Fixed::from_int(-20), Fixed::from_int(20));
        let target = Vec3::rand_with_range(&mut rng, Fixed::from_int(-10), Fixed::from_int(10));
        let ray = Ray::new(origin, target.sub(origin), fx(0));
        if !flat.iter().all(|o| hit_is_in_box(o, ray, fx(1_000), fx(0), fx(0))) {
            continue;
        }
        let expected = distance(plain.hit(ray, fx(1_000), Fixed::max_value()));
        assert_eq!(distance(nested.hit(ray, fx(1_000), Fixed::max_value())), expected);
        assert_eq!(distance(outer.hit(ray, fx(1_000), Fixed::max_value())), expected);
        if expected.is_some() {
            hits += 1;
        }
    }
    assert!(hits > 40);
}
