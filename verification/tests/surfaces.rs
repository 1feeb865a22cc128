use std::rc::Rc;

use image::DynamicImage;
use image::RgbImage;
use raytracer::fixed::Fixed;
use raytracer::hittable::HitRecord;
use raytracer::material::schlick;
use raytracer::material::Dielectric;
use raytracer::material::DiffuseLight;
use raytracer::material::Lambertian;
use raytracer::material::Material;
use raytracer::material::Metal;
use raytracer::material::Sample;
use raytracer::noise::Perlin;
use raytracer::random::RandomSource;
use raytracer::ray::Ray;
use raytracer::texture::CheckerTexture;
use raytracer::texture::ImageTexture;
use raytracer::texture::NoiseTexture;
use raytracer::texture::SolidColor;
use raytracer::texture::Texture;
use raytracer::vec3::Vec3;

fn fx(raw: i64) -> Fixed {
    Fixed::from_raw(raw)
}

fn v(x: i64, y: i64, z: i64) -> Vec3 {
    Vec3(fx(x), fx(y), fx(z))
}

fn record_on_floor(material: &Rc<Material>, ray: &Ray) -> HitRecord {
    HitRecord::new(v(0, 0, 0), fx(1_000_000), fx(250_000), fx(750_000), v(0, 1_000_000, 0), material, ray)
}

fn quiet() -> Sample {
    Sample { angle: fx(0), height: fx(0), ball: v(0, 0, 0), coin: fx(0) }
}

#[test]
fn solid_colour_is_the_same_everywhere() {
    let texture = SolidColor::new(v(100_000, 200_000, 300_000));
    assert_eq!(texture.value(fx(0), fx(0), v(0, 0, 0)), v(100_000, 200_000, 300_000));
    assert_eq!(texture.value(fx(5), fx(9), v(7, -3, 1)), v(100_000, 200_000, 300_000));
    let any = Texture::Solid(texture);
    assert_eq!(any.value(fx(1), fx(2), v(3, 4, 5)), v(100_000, 200_000, 300_000));
}

#[test]
fn checker_alternates_with_the_sign_of_the_sines() {
    let odd = v(1_000_000, 0, 0);
    let even = v(0, 0, 1_000_000);
    let texture = CheckerTexture::new(odd, even);
    assert_eq!(texture.value(fx(0), fx(0), v(100_000, 100_000, 100_000)), even);
    assert_eq!(texture.value(fx(0), fx(0), v(-100_000, 100_000, 100_000)), odd);
    assert_eq!(texture.value(fx(0), fx(0), v(-100_000, -100_000, 100_000)), even);
    assert_eq!(texture.value(fx(0), fx(0), v(-100_000, -100_000, -100_000)), odd);
    assert_eq!(texture.value(fx(0), fx(0), v(400_000, 100_000, 100_000)), odd);
    assert_eq!(texture.value(fx(0), fx(0), v(0, 0, 0)), even);
}

#[test]
fn checker_of_textures_asks_its_parts() {
    let inner = Rc::new(Texture::Checker(CheckerTexture::new(v(1, 1, 1), v(2, 2, 2))));
    let plain = Rc::new(Texture::Solid(SolidColor::new(v(9, 9, 9))));
    let texture = Texture::Checker(CheckerTexture::from_textures(inner, plain));
    assert_eq!(texture.value(fx(0), fx(0), v(100_000, 100_000, 100_000)), v(9, 9, 9));
    assert_eq!(texture.value(fx(0), fx(0), v(-100_000, 100_000, 100_000)), v(1, 1, 1));
}

#[test]
fn noise_is_zero_on_the_lattice_and_small_elsewhere() {
    let mut rng = RandomSource::from_seed(5);
    let perlin = Perlin::new(&mut rng);
    assert_eq!(perlin.noise(Vec3::from_ints(0, 0, 0)), fx(0));
    assert_eq!(perlin.noise(Vec3::from_ints(3, -7, 300)), fx(0));
    let mut largest = 0;
    let mut differing = 0;
    for i in 0..500 {
        let p = v(i * 137_001 - 30_000_000, i * 59_003, 20_000_000 - i * 91_007);
        let n = perlin.noise(p);
        assert!(n.raw().abs() <= 1_100_000);
        largest = largest.max(n.raw().abs());
        if n != perlin.noise(p.add(v(500_000, 0, 0))) {
            differing += 1;
        }
    }
    assert!(largest > 100_000);
    assert!(differing > 400);
}

#[test]
fn noise_depends_on_the_seed_only() {
    let a = Perlin::new(&mut RandomSource::from_seed(5));
    let b = Perlin::new(&mut RandomSource::from_seed(5));
    let c = Perlin::new(&mut RandomSource::from_seed(6));
    let mut same = true;
    for i in 0..50 {
        let p = v(i * 137_001, i * 59_003, i * 91_007);
        assert_eq!(a.noise(p), b.noise(p));
        if a.noise(p) != c.noise(p) {
            same = false;
        }
    }
    assert!(!same);
}

#[test]
fn turbulence_adds_octaves() {
    let perlin = Perlin::new(&mut RandomSource::from_seed(5));
    let p = v(1_300_000, -2_700_000, 4_100_000);
    assert_eq!(perlin.turb_with_depth(p, 0), fx(0));
    assert_eq!(perlin.turb_with_depth(p, -3), fx(0));
    assert_eq!(perlin.turb_with_depth(p, 1), perlin.noise(p).abs());
    let two = perlin.noise(p).add(fx(500_000).mul(perlin.noise(p.scale(fx(2_000_000))))).abs();
    assert_eq!(perlin.turb_with_depth(p, 2), two);
    assert_eq!(perlin.turb(p), perlin.turb_with_depth(p, 7));
    assert!(perlin.turb(p).raw() >= 0);
}

#[test]
fn noise_texture_scales_its_colour() {
    let mut rng = RandomSource::from_seed(8);
    let mut texture = NoiseTexture::with_color(Fixed::from_int(4), v(1_000_000, 500_000, 0), &mut rng);
    assert_eq!(texture.scale, Fixed::from_int(4));
    let mut distinct = std::collections::BTreeSet::new();
    for i in 0..100 {
        let p = v(i * 137_001, i * 59_003, i * 91_007);
        let c = texture.value(fx(0), fx(0), p);
        assert!(c.x().raw() >= 0 && c.x().raw() <= 1_000_000);
        assert!((c.y().raw() * 2 - c.x().raw()).abs() <= 1);
        assert_eq!(c.z(), fx(0));
        distinct.insert(c.x().raw());
    }
    assert!(distinct.len() > 50);
    let p = v(300_000, 200_000, 700_000);
    let before = texture.value(fx(0), fx(0), p);
    texture.set_scale(Fixed::from_int(1));
    assert_eq!(texture.scale, Fixed::from_int(1));
    assert_ne!(texture.value(fx(0), fx(0), p), before);
    let white = NoiseTexture::new(Fixed::from_int(2), &mut rng);
    assert_eq!(white.color, Vec3::from_ints(1, 1, 1));
    assert_eq!(white.scale, Fixed::from_int(2));
}

fn four_pixels() -> DynamicImage {
    let bytes = vec![255, 0, 0, 0, 255, 0, 0, 0, 255, 51, 102, 153];
    DynamicImage::ImageRgb8(RgbImage::from_raw(2, 2, bytes).unwrap())
}

#[test]
fn image_texture_looks_up_pixels() {
    let texture = ImageTexture::new(four_pixels()).unwrap();
    let red = v(1_000_000, 0, 0);
    let green = v(0, 1_000_000, 0);
    let blue = v(0, 0, 1_000_000);
    let mixed = v(200_000, 400_000, 600_000);
    assert_eq!(texture.value(fx(0), fx(1_000_000), v(0, 0, 0)), red);
    assert_eq!(texture.value(fx(250_000), fx(750_000), v(0, 0, 0)), red);
    assert_eq!(texture.value(fx(750_000), fx(750_000), v(0, 0, 0)), green);
    assert_eq!(texture.value(fx(250_000), fx(250_000), v(0, 0, 0)), blue);
    assert_eq!(texture.value(fx(750_000), fx(250_000), v(0, 0, 0)), mixed);
    assert_eq!(texture.value(fx(499_999), fx(500_001), v(0, 0, 0)), red);
    assert_eq!(texture.value(fx(500_000), fx(500_000), v(0, 0, 0)), mixed);
}

#[test]
fn image_texture_clamps_its_coordinates() {
    let texture = Texture::Image(ImageTexture::new(four_pixels()).unwrap());
    let green = v(0, 1_000_000, 0);
    let blue = v(0, 0, 1_000_000);
    let mixed = v(200_000, 400_000, 600_000);
    assert_eq!(texture.value(fx(1_000_000), fx(0), v(0, 0, 0)), mixed);
    assert_eq!(texture.value(fx(9_000_000), fx(-4_000_000), v(0, 0, 0)), mixed);
    assert_eq!(texture.value(fx(-9_000_000), fx(-4_000_000), v(0, 0, 0)), blue);
    assert_eq!(texture.value(fx(9_000_000), fx(4_000_000), v(0, 0, 0)), green);
}

#[test]
fn image_texture_needs_pixels() {
    assert!(ImageTexture::new(DynamicImage::new_rgb8(0, 0)).is_none());
    assert!(ImageTexture::new(DynamicImage::new_rgb8(3, 0)).is_none());
    assert!(ImageTexture::new(DynamicImage::new_rgb8(0, 3)).is_none());
    assert!(ImageTexture::new(DynamicImage::new_rgb8(1, 1)).is_some());
}

#[test]
fn image_texture_reads_wide_pictures() {
    let mut bytes = Vec::new();
    for y in 0..3u8 {
        for x in 0..5u8 {
            bytes.extend_from_slice(&[x * 51, y * 85, 0]);
        }
    }
    let texture = ImageTexture::new(DynamicImage::ImageRgb8(RgbImage::from_raw(5, 3, bytes).unwrap())).unwrap();
    let c = texture.value(fx(700_000), fx(900_000), v(0, 0, 0));
    assert_eq!(c, Vec3::from_bytes((3 * 51, 0, 0)));
    let c = texture.value(fx(100_000), fx(100_000), v(0, 0, 0));
    assert_eq!(c, Vec3::from_bytes((0, 2 * 85, 0)));
}

#[test]
fn schlick_at_known_angles() {
    assert_eq!(schlick(fx(1_000_000), fx(666_666)), fx(40_000));
    assert_eq!(schlick(fx(0), fx(666_666)), fx(1_000_000));
    assert_eq!(schlick(fx(1_000_000), fx(1_000_000)), fx(0));
    assert_eq!(schlick(fx(500_000), fx(1_500_000)), fx(70_000));
}

#[test]
fn lambertian_scatters_about_the_normal() {
    let material = Rc::new(Material::Lambertian(Lambertian::solid(v(800_000, 600_000, 400_000))));
    let ray = Ray::new(v(0, 5_000_000, 0), v(0, -1_000_000, 0), fx(300_000));
    let record = record_on_floor(&material, &ray);
    let lambertian = Lambertian::solid(v(800_000, 600_000, 400_000));
    let s = lambertian.scatter_with(&ray, &record, v(600_000, 0, 800_000)).unwrap();
    assert_eq!(s.attenuation, v(800_000, 600_000, 400_000));
    assert_eq!(s.scattered.origin(), v(0, 0, 0));
    assert_eq!(s.scattered.direction(), v(600_000, 1_000_000, 800_000));
    assert_eq!(s.scattered.time(), fx(300_000));
    let sample = Sample { angle: fx(0), height: fx(0), ..quiet() };
    let through = material.scatter_with(&ray, &record, &sample).unwrap();
    assert_eq!(through.scattered.direction(), v(1_000_000, 1_000_000, 0));
}

#[test]
fn lambertian_keeps_exactly_its_albedo() {
    let albedo = v(800_000, 600_000, 400_000);
    let material = Rc::new(Material::Lambertian(Lambertian::solid(albedo)));
    let ray = Ray::new(v(0, 5_000_000, 0), v(0, -1_000_000, 0), fx(0));
    let record = record_on_floor(&material, &ray);
    let mut rng = RandomSource::from_seed(9);
    let mut sum = [0i64; 3];
    let count = 1000;
    for _ in 0..count {
        let s = material.scatter(&ray, &record, &mut rng).unwrap();
        assert!(Vec3::dot(s.scattered.direction(), record.normal).raw() >= -10);
        for i in 0..3 {
            sum[i] += s.attenuation.get(i).raw();
        }
    }
    assert_eq!([sum[0] / count, sum[1] / count, sum[2] / count], [800_000, 600_000, 400_000]);
}

#[test]
fn lambertian_takes_its_colour_from_its_texture() {
    let checker = Lambertian::checker(v(1_000_000, 0, 0), v(0, 0, 1_000_000));
    let material = Rc::new(Material::Lambertian(Lambertian::new(Rc::clone(&checker.albedo))));
    let ray = Ray::new(v(0, 5_000_000, 0), v(0, -1_000_000, 0), fx(0));
    let mut record = record_on_floor(&material, &ray);
    record.p = v(-100_000, 100_000, 100_000);
    let s = material.scatter_with(&ray, &record, &quiet()).unwrap();
    assert_eq!(s.attenuation, v(1_000_000, 0, 0));
    record.p = v(100_000, 100_000, 100_000);
    let s = material.scatter_with(&ray, &record, &quiet()).unwrap();
    assert_eq!(s.attenuation, v(0, 0, 1_000_000));
}

#[test]
fn metal_mirrors_the_ray() {
    let metal = Metal::new(v(700_000, 600_000, 500_000), fx(0));
    let material = Rc::new(Material::Metal(Metal::new(v(700_000, 600_000, 500_000), fx(0))));
    let ray = Ray::new(v(-3_000_000, 4_000_000, 0), v(3_000_000, -4_000_000, 0), fx(100_000));
    let record = record_on_floor(&material, &ray);
    let s = metal.scatter_with(&ray, &record, v(0, -900_000, 0)).unwrap();
    assert_eq!(s.attenuation, v(700_000, 600_000, 500_000));
    assert_eq!(s.scattered.direction(), v(600_000, 800_000, 0));
    assert_eq!(s.scattered.origin(), v(0, 0, 0));
    assert_eq!(s.scattered.time(), fx(100_000));
}

#[test]
fn metal_fuzz_is_clamped_and_may_absorb() {
    assert_eq!(Metal::new(v(1, 1, 1), fx(2_000_000)).fuzz, fx(1_000_000));
    assert_eq!(Metal::new(v(1, 1, 1), fx(-2_000_000)).fuzz, fx(0));
    assert_eq!(Metal::new(v(1, 1, 1), fx(300_000)).fuzz, fx(300_000));
    let metal = Metal::new(v(700_000, 600_000, 500_000), fx(1_000_000));
    let material = Rc::new(Material::Metal(Metal::new(v(700_000, 600_000, 500_000), fx(1_000_000))));
    let ray = Ray::new(v(-3_000_000, 4_000_000, 0), v(3_000_000, -4_000_000, 0), fx(0));
    let record = record_on_floor(&material, &ray);
    assert!(metal.scatter_with(&ray, &record, v(0, -900_000, 0)).is_none());
    assert!(metal.scatter_with(&ray, &record, v(0, -800_000, 0)).is_none());
    let s = metal.scatter_with(&ray, &record, v(100_000, -500_000, 200_000)).unwrap();
    assert_eq!(s.scattered.direction(), v(700_000, 300_000, 200_000));
    let sample = Sample { ball: v(0, -900_000, 0), ..quiet() };
    assert!(material.scatter_with(&ray, &record, &sample).is_none());
}

#[test]
fn glass_refracts_a_ray_that_comes_straight_on() {
    let glass = Dielectric::new(fx(1_500_000));
    let material = Rc::new(Material::Dielectric(Dielectric::new(fx(1_500_000))));
    let ray = Ray::new(v(0, 0, 0), v(0, 0, -1_000_000), fx(0));
    let record = HitRecord::new(
        v(0, 0, -500_000),
        fx(500_000),
        fx(0),
        fx(0),
        v(0, 0, 1_000_000),
        &material,
        &ray,
    );
    assert!(record.front_face);
    for coin in [40_000, 500_000, 999_999] {
        let s = glass.scatter_with(&ray, &record, fx(coin)).unwrap();
        assert_eq!(s.attenuation, Vec3::from_ints(1, 1, 1));
        assert_eq!(s.scattered.direction(), v(0, 0, -1_000_000));
        assert_eq!(s.scattered.origin(), v(0, 0, -500_000));
    }
    let reflected = glass.scatter_with(&ray, &record, fx(39_999)).unwrap();
    assert_eq!(reflected.scattered.direction(), v(0, 0, 1_000_000));
}

#[test]
fn glass_reflects_all_light_beyond_the_critical_angle() {
    let glass = Dielectric::new(fx(1_500_000));
    let material = Rc::new(Material::Dielectric(Dielectric::new(fx(1_500_000))));
    let ray = Ray::new(v(0, 0, 0), v(866_025, 500_000, 0), fx(0));
    let record = HitRecord::new(v(0, 0, 0), fx(1), fx(0), fx(0), v(0, 1_000_000, 0), &material, &ray);
    assert!(!record.front_face);
    assert_eq!(record.normal, v(0, -1_000_000, 0));
    for coin in [0, 500_000, 999_999] {
        let s = glass.scatter_with(&ray, &record, fx(coin)).unwrap();
        let d = s.scattered.direction();
        assert!((d.x().raw() - 866_025).abs() <= 2);
        assert!((d.y().raw() + 500_000).abs() <= 2);
        assert_eq!(s.attenuation, Vec3::from_ints(1, 1, 1));
    }
}

#[test]
fn glass_leaves_a_sphere_as_it_entered() {
    let glass = Dielectric::new(fx(1_500_000));
    let material = Rc::new(Material::Dielectric(Dielectric::new(fx(1_500_000))));
    let ray = Ray::new(v(0, 0, 0), v(0, 1_000_000, 0), fx(0));
    let record = HitRecord::new(v(0, 0, 0), fx(1), fx(0), fx(0), v(0, 1_000_000, 0), &material, &ray);
    assert!(!record.front_face);
    let s = glass.scatter_with(&ray, &record, fx(500_000)).unwrap();
    assert_eq!(s.scattered.direction(), v(0, 1_000_000, 0));
}

#[test]
fn lamp_emits_and_never_scatters() {
    let lamp = Rc::new(Material::DiffuseLight(DiffuseLight::solid(Vec3::from_ints(4, 4, 4))));
    let ray = Ray::new(v(0, 5_000_000, 0), v(0, -1_000_000, 0), fx(0));
    let record = record_on_floor(&lamp, &ray);
    assert!(lamp.scatter_with(&ray, &record, &quiet()).is_none());
    let mut rng = RandomSource::from_seed(1);
    for _ in 0..20 {
        assert!(lamp.scatter(&ray, &record, &mut rng).is_none());
    }
    assert_eq!(lamp.emitted(fx(0), fx(0), v(0, 0, 0)), Vec3::from_ints(4, 4, 4));
    assert_eq!(lamp.emitted(fx(700), fx(-3), v(9, 9, 9)), Vec3::from_ints(4, 4, 4));
    let textured = DiffuseLight::new(Rc::new(Texture::Solid(SolidColor::new(v(1, 2, 3)))));
    assert_eq!(Material::DiffuseLight(textured).emitted(fx(0), fx(0), v(0, 0, 0)), v(1, 2, 3));
}

#[test]
fn other_materials_emit_nothing() {
    let p = v(1, 2, 3);
    assert_eq!(Material::Lambertian(Lambertian::solid(v(9, 9, 9))).emitted(fx(0), fx(0), p), v(0, 0, 0));
    assert_eq!(Material::Metal(Metal::new(v(9, 9, 9), fx(0))).emitted(fx(0), fx(0), p), v(0, 0, 0));
    assert_eq!(Material::Dielectric(Dielectric::new(fx(1_500_000))).emitted(fx(0), fx(0), p), v(0, 0, 0));
}

#[test]
fn scattering_with_drawn_numbers_matches_the_material() {
    let ray = Ray::new(v(-3_000_000, 4_000_000, 0), v(3_000_000, -4_000_000, 0), fx(700_000));
    let mut rng = RandomSource::from_seed(4);
    let matte = Rc::new(Material::Lambertian(Lambertian::solid(v(1, 2, 3))));
    let glass = Rc::new(Material::Dielectric(Dielectric::new(fx(1_500_000))));
    let mirror = Rc::new(Material::Metal(Metal::new(v(4, 5, 6), fx(0))));
    for _ in 0..100 {
        let s = matte.scatter(&ray, &record_on_floor(&matte, &ray), &mut rng).unwrap();
        assert_eq!(s.attenuation, v(1, 2, 3));
        assert_eq!(s.scattered.time(), fx(700_000));
        let s = glass.scatter(&ray, &record_on_floor(&glass, &ray), &mut rng).unwrap();
        assert_eq!(s.attenuation, Vec3::from_ints(1, 1, 1));
        let s = mirror.scatter(&ray, &record_on_floor(&mirror, &ray), &mut rng).unwrap();
        assert_eq!(s.scattered.direction(), v(600_000, 800_000, 0));
    }
}

#[test]
fn drawn_samples_are_valid() {
    let mut rng = RandomSource::from_seed(12);
    for _ in 0..200 {
        let s = Sample::draw(&mut rng);
        assert!(s.angle.raw() >= 0 && s.angle.raw() < 6_283_185);
        assert!(s.height.raw() >= -1_000_000 && s.height.raw() < 1_000_000);
        assert!(s.ball.length_squared().raw() < 1_000_000);
        assert!(s.coin.raw() >= 0 && s.coin.raw() < 1_000_000);
        assert_eq!(s.unit(), Vec3::unit_at(s.angle, s.height));
    }
}

#[test]
fn glass_is_never_totally_reflecting_for_a_ray_that_enters() {
    let glass = Dielectric::new(fx(1_500_000));
    let material = Rc::new(Material::Dielectric(Dielectric::new(fx(1_500_000))));
    let mut rng = RandomSource::from_seed(19);
    for _ in 0..500 {
        let mut dir = Vec3::rand_with_range(&mut rng, fx(-3_000_000), fx(3_000_000));
        if dir.y().raw() >= 0 {
            dir = Vec3(dir.x(), fx(-1 - dir.y().raw()), dir.z());
        }
        let ray = Ray::new(v(0, 1_000_000, 0), dir, fx(0));
        let record = record_on_floor(&material, &ray);
        assert!(record.front_face);
        let unit = Vec3::unit_vector(dir);
        let cosine = Vec3::dot(unit.neg(), record.normal).min(fx(1_000_000));
        let reflectance = schlick(cosine, fx(666_666));
        let refracted = glass.scatter_with(&ray, &record, fx(999_999)).unwrap();
        if reflectance.raw() <= 999_999 {
            assert!(refracted.scattered.direction().y().raw() <= 0);
        }
        let reflected = glass.scatter_with(&ray, &record, fx(0)).unwrap();
        if reflectance.raw() > 0 {
            assert_eq!(reflected.scattered.direction(), Vec3::reflect(unit, record.normal));
        }
    }
}
