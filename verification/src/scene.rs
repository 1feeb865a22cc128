//! Ready-made scenes.

use vstd::prelude::*;
use std::rc::Rc;
use image::DynamicImage;
use crate::fixed::Fixed;
use crate::handle::share;
use crate::hittable::bvh_node::BvhNode;
use crate::hittable::rectangle::XYRect;
use crate::hittable::sphere::Sphere;
use crate::hittable::Hittable;
use crate::hittable::HittableList;
use crate::material::Dielectric;
use crate::material::DiffuseLight;
use crate::material::Lambertian;
use crate::material::Material;
use crate::material::Metal;
use crate::random::rand_with_range;
use crate::random::random_double;
use crate::random::RandomSource;
use crate::texture::raster_size;
use crate::texture::ImageTexture;
use crate::texture::NoiseTexture;
use crate::texture::SolidColor;
use crate::texture::Texture;
use crate::vec3::Vec3;

verus! {

/// The object is the sphere of radius `radius` about `center`, of the
/// material `material`.
pub open spec fn is_sphere_of(object: Rc<Hittable>, center: Vec3, radius: Fixed, material: Material) -> bool {
    *object matches Hittable::Sphere(s) && s.valid() && s.center == center && s.radius == radius
        && *s.mat_ptr == material
}

/// The ground of the random scene: a sphere of radius 1000 with a green
/// and white checker pattern.
pub open spec fn is_ground(object: Rc<Hittable>) -> bool {
    *object matches Hittable::Sphere(s) && s.valid() && s.center == Vec3::from_ints(0, -1000i64, 0)
        && s.radius == Fixed::from_int(1000) && (*s.mat_ptr matches Material::Lambertian(m) && (
    *m.albedo matches Texture::Checker(c) && *c.odd == Texture::Solid(
        SolidColor {
            color: Vec3(Fixed::from_millis(200), Fixed::from_millis(300), Fixed::from_millis(100)),
        },
    ) && *c.even == Texture::Solid(
        SolidColor {
            color: Vec3(Fixed::from_millis(900), Fixed::from_millis(900), Fixed::from_millis(900)),
        },
    )))
}

/// A material of a small sphere: matte of one colour, metal with a fuzz
/// of at most a half, or glass of index 1.5.
pub open spec fn is_small_material(material: Material) -> bool {
    match material {
        Material::Lambertian(m) => *m.albedo is Solid,
        Material::Metal(m) => 0 <= m.fuzz.raw < 500_000 && 500_000 <= m.albedo.0.raw < 1_000_000
            && 500_000 <= m.albedo.1.raw < 1_000_000 && 500_000 <= m.albedo.2.raw < 1_000_000,
        Material::Dielectric(m) => m.ref_idx == Fixed::from_millis(1500),
        Material::DiffuseLight(m) => false,
    }
}

/// A small sphere of the random scene: of radius 0.2, resting on the
/// ground within the grid, more than 0.9 away from the point (4, 0.2, 0).
pub open spec fn is_small_sphere(object: Rc<Hittable>) -> bool {
    *object matches Hittable::Sphere(s) && s.valid() && s.radius == Fixed::from_millis(200)
        && s.center.1 == Fixed::from_millis(200) && -11_000_000 <= s.center.0.raw < 10_900_000
        && -11_000_000 <= s.center.2.raw < 10_900_000 && s.center.sub(
        Vec3(Fixed::from_int(4), Fixed::from_millis(200), Fixed::zero()),
    ).length().raw > 900_000 && is_small_material(*s.mat_ptr)
}

/// The objects of the random scene: the ground, then the small spheres,
/// then a glass, a matte and a metal sphere of radius one.
pub open spec fn is_random_field(objects: Seq<Rc<Hittable>>) -> bool {
    let n = objects.len() as int;
    &&& 4 <= n <= 488
    &&& is_ground(objects[0])
    &&& forall|i: int| 1 <= i < n - 3 ==> is_small_sphere(#[trigger] objects[i])
    &&& is_sphere_of(
        objects[n - 3],
        Vec3::from_ints(0, 1, 0),
        Fixed::from_int(1),
        Material::Dielectric(Dielectric { ref_idx: Fixed::from_millis(1500) }),
    )
    &&& *objects[n - 2] matches Hittable::Sphere(s) && s.valid() && s.center == Vec3::from_ints(
        -4i64,
        1,
        0,
    ) && s.radius == Fixed::from_int(1) && (*s.mat_ptr matches Material::Lambertian(m) && *m.albedo
        == Texture::Solid(
        SolidColor {
            color: Vec3(Fixed::from_millis(400), Fixed::from_millis(200), Fixed::from_millis(100)),
        },
    ))
    &&& is_sphere_of(
        objects[n - 1],
        Vec3::from_ints(4, 1, 0),
        Fixed::from_int(1),
        Material::Metal(
            Metal {
                albedo: Vec3(Fixed::from_millis(700), Fixed::from_millis(600), Fixed::from_millis(500)),
                fuzz: Fixed::zero(),
            },
        ),
    )
}

/// The object is the tree of boxes over `objects`, for the plan `axes` and
/// the times from zero to one.
pub open spec fn is_tree_over(object: Rc<Hittable>, objects: Seq<Rc<Hittable>>, axes: Seq<u8>) -> bool {
    *object matches Hittable::Bvh(node) && node.built_from(
        objects,
        axes,
        0,
        Fixed::from_int(0),
        Fixed::from_int(1),
    )
}

/// A sphere with a material of its own.
fn sphere(center: Vec3, radius: Fixed, material: Material) -> (r: Rc<Hittable>)
    requires
        radius.raw > 0,
    ensures
        is_sphere_of(r, center, radius, material),
{
    Rc::new(Hittable::Sphere(Sphere::new(center, radius, Rc::new(material))))
}

/// The material of a small sphere: matte for three draws of `choose_mat`
/// in four, metal for one in five, else glass.
fn small_material(choose_mat: Fixed, rng: &mut RandomSource) -> (r: Material)
    ensures
        is_small_material(r),
{
    if choose_mat.raw < 750_000 {
        let albedo = Vec3::random(rng).mul(Vec3::random(rng));
        Material::Lambertian(Lambertian::solid(albedo))
    } else if choose_mat.raw < 950_000 {
        let color = Vec3::rand_with_range(rng, Fixed::from_millis(500), Fixed::from_int(1));
        let fuzz = rand_with_range(rng, Fixed::zero(), Fixed::from_millis(500));
        Material::Metal(Metal::new(color, fuzz))
    } else {
        Material::Dielectric(Dielectric::new(Fixed::from_millis(1500)))
    }
}

/// A field of small random spheres around three large ones, on a ground
/// with a checker pattern, gathered in one tree of boxes.
///
/// On each of the 22 x 22 places of a grid a small sphere is put at a
/// random spot within the place, unless that spot is within 0.9 of the
/// point (4, 0.2, 0).
pub fn random_scene(rng: &mut RandomSource) -> (r: HittableList)
    ensures
        r.objects@.len() == 1,
        exists|objects: Seq<Rc<Hittable>>, axes: Seq<u8>|
            is_random_field(objects) && #[trigger] is_tree_over(r.objects@[0], objects, axes),
{
    let mut scene = HittableList::new();
    let ground_material = Material::Lambertian(
        Lambertian::checker(
            Vec3(Fixed::from_millis(200), Fixed::from_millis(300), Fixed::from_millis(100)),
            Vec3(Fixed::from_millis(900), Fixed::from_millis(900), Fixed::from_millis(900)),
        ),
    );
    scene.push(sphere(Vec3::from_ints(0, -1000, 0), Fixed::from_int(1000), ground_material));
    let mut a: i64 = -11;
    while a < 11
        invariant
            -11 <= a <= 11,
            1 <= scene.objects@.len() <= 1 + (a + 11) * 22,
            is_ground(scene.objects@[0]),
            forall|i: int| 1 <= i < scene.objects@.len() ==> is_small_sphere(#[trigger] scene.objects@[i]),
        decreases 11 - a,
    {
        let mut b: i64 = -11;
        while b < 11
            invariant
                -11 <= a < 11,
                -11 <= b <= 11,
                1 <= scene.objects@.len() <= 1 + (a + 11) * 22 + (b + 11),
                is_ground(scene.objects@[0]),
                forall|i: int|
                    1 <= i < scene.objects@.len() ==> is_small_sphere(#[trigger] scene.objects@[i]),
            decreases 11 - b,
        {
            let choose_mat = random_double(rng);
            let center = Vec3(
                Fixed::from_int(a).add(Fixed::from_millis(900).mul(random_double(rng))),
                Fixed::from_millis(200),
                Fixed::from_int(b).add(Fixed::from_millis(900).mul(random_double(rng))),
            );
            let away = center.sub(Vec3(Fixed::from_int(4), Fixed::from_millis(200), Fixed::zero()));
            if away.length().raw > 900_000 {
                let ghost before = scene.objects@;
                let material = small_material(choose_mat, rng);
                let ball = sphere(center, Fixed::from_millis(200), material);
                proof {
                    lemma_offset_in_place(a, center.0);
                    lemma_offset_in_place(b, center.2);
                }
                assert(is_small_sphere(ball));
                scene.push(ball);
                assert forall|i: int| 1 <= i < scene.objects@.len() implies is_small_sphere(
                    #[trigger] scene.objects@[i],
                ) by {
                    if i < before.len() {
                        assert(scene.objects@[i] == before[i]);
                    }
                }
                assert(scene.objects@[0] == before[0]);
            }
            b = b + 1;
        }
        a = a + 1;
    }
    let ghost small = scene.objects@;
    scene.push(
        sphere(
            Vec3::from_ints(0, 1, 0),
            Fixed::from_int(1),
            Material::Dielectric(Dielectric::new(Fixed::from_millis(1500))),
        ),
    );
    scene.push(
        sphere(
            Vec3::from_ints(-4, 1, 0),
            Fixed::from_int(1),
            Material::Lambertian(
                Lambertian::solid(
                    Vec3(Fixed::from_millis(400), Fixed::from_millis(200), Fixed::from_millis(100)),
                ),
            ),
        ),
    );
    scene.push(
        sphere(
            Vec3::from_ints(4, 1, 0),
            Fixed::from_int(1),
            Material::Metal(
                Metal::new(
                    Vec3(Fixed::from_millis(700), Fixed::from_millis(600), Fixed::from_millis(500)),
                    Fixed::zero(),
                ),
            ),
        ),
    );
    let ghost objects = scene.objects@;
    assert(is_random_field(objects)) by {
        assert(objects[0] == small[0]);
        assert forall|i: int| 1 <= i < objects.len() - 3 implies is_small_sphere(#[trigger] objects[i]) by {
            assert(objects[i] == small[i]);
        }
    }
    let node = BvhNode::new(scene, Fixed::from_int(0), Fixed::from_int(1), rng);
    let ghost axes: Seq<u8> = choose|axes: Seq<u8>| #[trigger]
        node.built_from(objects, axes, 0, Fixed::from_int(0), Fixed::from_int(1));
    let mut world = HittableList::new();
    world.push(Rc::new(Hittable::Bvh(node)));
    assert(is_random_field(objects) && is_tree_over(world.objects@[0], objects, axes));
    world
}

/// A spot within a place of the grid: the place's number plus nine
/// tenths of a number below one stays within the grid.
proof fn lemma_offset_in_place(place: i64, spot: Fixed)
    requires
        -11 <= place < 11,
        exists|offset: Fixed|
            0 <= offset.raw < 1_000_000 && spot == #[trigger] Fixed::from_int(place).add(
                Fixed::from_millis(900).mul(offset),
            ),
    ensures
        -11_000_000 <= spot.raw < 10_900_000,
{
    reveal(Fixed::mul_spec);
    let offset = choose|offset: Fixed|
        0 <= offset.raw < 1_000_000 && spot == #[trigger] Fixed::from_int(place).add(
            Fixed::from_millis(900).mul(offset),
        );
    assert(0 <= 900_000 * offset.raw as int <= 900_000 * 1_000_000) by (nonlinear_arith)
        requires
            0 <= offset.raw < 1_000_000,
    ;
    vstd::arithmetic::div_mod::lemma_div_is_ordered(
        900_000 * offset.raw as int,
        900_000_000_000int,
        1_000_000,
    );
    vstd::arithmetic::div_mod::lemma_div_is_ordered(0, 900_000 * offset.raw as int, 1_000_000);
}

/// The material of the noise spheres: matte, with white marble-like noise
/// of scale four.
pub open spec fn is_marble(material: Rc<Material>) -> bool {
    *material matches Material::Lambertian(m) && (*m.albedo matches Texture::Noise(t) && t.scale
        == Fixed::from_int(4) && t.color == Vec3::from_ints(1, 1, 1) && t.noise.freshly_made())
}

/// The material of the lamps: light of four times full white.
pub open spec fn is_lamp(material: Rc<Material>) -> bool {
    *material matches Material::DiffuseLight(m) && *m.emit == Texture::Solid(
        SolidColor { color: Vec3::from_ints(4, 4, 4) },
    )
}

/// The two noise spheres: the ground, of radius 1000 about (0, -1000, 0),
/// and the ball, of radius 2 about (0, 2, 0), of one and the same marble.
pub open spec fn are_noise_spheres(ground: Rc<Hittable>, ball: Rc<Hittable>) -> bool {
    &&& *ground matches Hittable::Sphere(s) && s.valid() && s.center == Vec3::from_ints(0, -1000i64, 0)
        && s.radius == Fixed::from_int(1000) && is_marble(s.mat_ptr)
    &&& *ball matches Hittable::Sphere(s) && s.valid() && s.center == Vec3::from_ints(0, 2, 0)
        && s.radius == Fixed::from_int(2) && is_marble(s.mat_ptr)
    &&& ground->Sphere_0.mat_ptr == ball->Sphere_0.mat_ptr
}

/// A ground and a ball above it, both of marble-like noise: spheres of
/// radius 1000 about (0, -1000, 0) and of radius 2 about (0, 2, 0).
pub fn two_perlin_spheres(rng: &mut RandomSource) -> (r: HittableList)
    ensures
        r.objects@.len() == 2,
        are_noise_spheres(r.objects@[0], r.objects@[1]),
{
    let mut objects = HittableList::new();
    let pertext: Rc<Texture> = Rc::new(Texture::Noise(NoiseTexture::new(Fixed::from_int(4), rng)));
    let marble: Rc<Material> = Rc::new(Material::Lambertian(Lambertian::new(pertext)));
    objects.push(
        Rc::new(
            Hittable::Sphere(
                Sphere::new(Vec3::from_ints(0, -1000, 0), Fixed::from_int(1000), share(&marble)),
            ),
        ),
    );
    objects.push(
        Rc::new(Hittable::Sphere(Sphere::new(Vec3::from_ints(0, 2, 0), Fixed::from_int(2), marble))),
    );
    objects
}

/// The globe: a sphere of radius 2 about the origin that shows `image`.
/// `None` for an image without pixels.
pub fn earth(image: DynamicImage) -> (r: Option<HittableList>)
    ensures
        r is Some <==> raster_size(image).0 > 0 && raster_size(image).1
            > 0,
        r matches Some(list) ==> list.objects@.len() == 1 && (*list.objects@[0] matches Hittable::Sphere(
            s,
        ) && s.valid() && s.center == Vec3::from_ints(0, 0, 0) && s.radius == Fixed::from_int(2) && (
        *s.mat_ptr matches Material::Lambertian(m) && (*m.albedo matches Texture::Image(t) && t.image()
            == image))),
{
    match ImageTexture::new(image) {
        None => None,
        Some(texture) => {
            let earth_texture = Material::Lambertian(Lambertian::new(Rc::new(Texture::Image(texture))));
            let mut objects = HittableList::new();
            objects.push(sphere(Vec3::from_ints(0, 0, 0), Fixed::from_int(2), earth_texture));
            Some(objects)
        },
    }
}

/// The two noise spheres, lit by a lamp sphere of radius 2 about
/// (0, 7, 0) and a lamp rectangle `[3, 5] x [1, 3]` at `z = -2`, both of
/// four times full white.
pub fn simple_light(rng: &mut RandomSource) -> (r: HittableList)
    ensures
        r.objects@.len() == 4,
        are_noise_spheres(r.objects@[0], r.objects@[1]),
        *r.objects@[2] matches Hittable::Sphere(s) && s.valid() && s.center == Vec3::from_ints(0, 7, 0)
            && s.radius == Fixed::from_int(2) && is_lamp(s.mat_ptr),
        *r.objects@[3] matches Hittable::XYRect(s) && s.valid() && s.x0 == Fixed::from_int(3) && s.x1
            == Fixed::from_int(5) && s.y0 == Fixed::from_int(1) && s.y1 == Fixed::from_int(3) && s.k
            == Fixed::from_int(-2i64) && is_lamp(s.mat_ptr),
{
    let mut objects = two_perlin_spheres(rng);
    let diffuse_light: Rc<Material> = Rc::new(
        Material::DiffuseLight(DiffuseLight::solid(Vec3::from_ints(4, 4, 4))),
    );
    objects.push(
        Rc::new(
            Hittable::Sphere(
                Sphere::new(Vec3::from_ints(0, 7, 0), Fixed::from_int(2), share(&diffuse_light)),
            ),
        ),
    );
    objects.push(
        Rc::new(
            Hittable::XYRect(
                XYRect::new(
                    Fixed::from_int(3),
                    Fixed::from_int(5),
                    Fixed::from_int(1),
                    Fixed::from_int(3),
                    Fixed::from_int(-2),
                    diffuse_light,
                ),
            ),
        ),
    );
    objects
}

} // verus!
