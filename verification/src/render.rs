//! The estimator of the light along a ray, and the mapping of its sums to
//! bytes.

use vstd::prelude::*;
use crate::fixed::clamp;
use crate::fixed::clamp_spec;
use crate::fixed::Fixed;
use crate::fixed::SCALE;
use crate::hittable::HittableList;
use crate::material::Sample;
use crate::random::RandomSource;
use crate::ray::Ray;
use crate::vec3::Color;
use crate::vec3::Vec3;

verus! {

/// The least parameter at which a hit counts, a thousandth: nearer hits
/// are the surface that the ray has just left.
pub const SHADOW_EPSILON_RAW: i64 = 1_000;

/// The brightest channel value that is written, just under one.
pub const BRIGHTEST_RAW: i64 = 999_000;

/// The sample for bounce `i`: that of the list, and beyond its end the
/// sample whose numbers are all zero.
pub open spec fn sample_at_spec(samples: Seq<Sample>, i: int) -> Sample {
    if 0 <= i < samples.len() {
        samples[i]
    } else {
        quiet_sample_spec()
    }
}

/// The sample whose numbers are all zero.
pub open spec fn quiet_sample_spec() -> Sample {
    Sample { angle: Fixed::zero(), height: Fixed::zero(), ball: Vec3::zero(), coin: Fixed::zero() }
}

/// The light that arrives along `ray`, with at most `depth` bounces, when
/// the bounces use the samples of the list from place `next` on.
///
/// With no bounce left the path is cut and brings nothing. A ray that
/// hits nothing from the shadow epsilon on brings the background. A hit
/// brings what its material sends out, and, unless the material absorbs
/// the ray, also the light along the scattered ray, each channel scaled by
/// the attenuation.
pub open spec fn radiance_spec(
    ray: Ray,
    background: Color,
    world: HittableList,
    depth: int,
    samples: Seq<Sample>,
    next: int,
) -> Color
    decreases depth,
{
    if depth <= 0 {
        Vec3::zero()
    } else {
        match world.hit_spec(ray, Fixed { raw: SHADOW_EPSILON_RAW }, Fixed::max_value()) {
            None => background,
            Some(record) => {
                let emitted = record.mat_ptr.emitted_spec(record.u, record.v, record.p);
                match record.mat_ptr.scatter_with_spec(ray, record, sample_at_spec(samples, next)) {
                    None => emitted,
                    Some(s) => emitted.add(
                        s.attenuation.mul(
                            radiance_spec(s.scattered, background, world, depth - 1, samples, next + 1),
                        ),
                    ),
                }
            },
        }
    }
}

/// Every sample of the list is valid.
pub open spec fn all_valid(samples: Seq<Sample>) -> bool {
    forall|i: int| 0 <= i < samples.len() ==> (#[trigger] samples[i]).valid()
}

/// A path cut by the depth budget brings black, whatever the ray and the
/// scene; and in a scene without objects a path with budget left brings
/// the background.
pub proof fn lemma_radiance_ends(
    ray: Ray,
    background: Color,
    world: HittableList,
    depth: int,
    samples: Seq<Sample>,
    next: int,
)
    ensures
        depth <= 0 ==> radiance_spec(ray, background, world, depth, samples, next) == Vec3::zero(),
        depth > 0 && world.objects@.len() == 0 ==> radiance_spec(
            ray,
            background,
            world,
            depth,
            samples,
            next,
        ) == background,
{
}

/// The light along a path does not depend on the samples before the
/// place from which it reads.
pub proof fn lemma_radiance_shift(
    ray: Ray,
    background: Color,
    world: HittableList,
    depth: int,
    first: Sample,
    samples: Seq<Sample>,
    next: int,
)
    requires
        0 <= next,
    ensures
        radiance_spec(ray, background, world, depth, seq![first] + samples, next + 1) == radiance_spec(
            ray,
            background,
            world,
            depth,
            samples,
            next,
        ),
    decreases depth,
{
    if depth > 0 {
        let longer = seq![first] + samples;
        assert(sample_at_spec(longer, next + 1) == sample_at_spec(samples, next)) by {
            if next < samples.len() {
                assert(longer[next + 1] == samples[next]);
            }
        }
        match world.hit_spec(ray, Fixed { raw: SHADOW_EPSILON_RAW }, Fixed::max_value()) {
            None => {},
            Some(record) => {
                match record.mat_ptr.scatter_with_spec(ray, record, sample_at_spec(samples, next)) {
                    None => {},
                    Some(s) => {
                        lemma_radiance_shift(
                            s.scattered,
                            background,
                            world,
                            depth - 1,
                            first,
                            samples,
                            next + 1,
                        );
                    },
                }
            },
        }
    }
}

/// The sample for bounce `i`.
fn sample_at(samples: &Vec<Sample>, i: usize) -> (r: Sample)
    ensures
        r == sample_at_spec(samples@, i as int),
{
    if i < samples.len() {
        samples[i]
    } else {
        Sample { angle: Fixed::zero(), height: Fixed::zero(), ball: Vec3::zero(), coin: Fixed::zero() }
    }
}

/// The light along `ray` when the bounces use the samples of the list in
/// turn, and the sample of zeros once the list is used up.
pub fn ray_color_with(ray: Ray, background: Color, world: &HittableList, depth: i32, samples: &Vec<Sample>) -> (r:
    Color)
    ensures
        r == radiance_spec(ray, background, *world, depth as int, samples@, 0),
{
    trace(ray, background, world, depth, samples, 0)
}

/// The light along `ray` with the samples of the list from place `next` on.
fn trace(
    ray: Ray,
    background: Color,
    world: &HittableList,
    depth: i32,
    samples: &Vec<Sample>,
    next: usize,
) -> (r: Color)
    requires
        depth > 0 ==> next + depth <= usize::MAX,
    ensures
        r == radiance_spec(ray, background, *world, depth as int, samples@, next as int),
    decreases depth,
{
    if depth <= 0 {
        return Vec3::zero();
    }
    match world.hit(ray, Fixed { raw: SHADOW_EPSILON_RAW }, Fixed::max_value()) {
        None => background,
        Some(record) => {
            let emitted = record.mat_ptr.emitted(record.u, record.v, record.p);
            match record.mat_ptr.scatter_with(&ray, &record, &sample_at(samples, next)) {
                None => emitted,
                Some(s) => {
                    let rest = trace(s.scattered, background, world, depth - 1, samples, next + 1);
                    emitted.add(s.attenuation.mul(rest))
                },
            }
        },
    }
}

/// The light along `ray`, with random numbers drawn from `rng`: whatever
/// is drawn, the result is that of `ray_color_with` for some list of
/// valid samples.
pub fn ray_color(ray: Ray, background: Color, world: &HittableList, depth: i32, rng: &mut RandomSource) -> (r:
    Color)
    ensures
        exists|samples: Seq<Sample>|
            all_valid(samples) && r == #[trigger] radiance_spec(
                ray,
                background,
                *world,
                depth as int,
                samples,
                0,
            ),
        depth <= 0 ==> r == Vec3::zero(),
        depth > 0 && world.objects@.len() == 0 ==> r == background,
    decreases depth,
{
    let ghost none: Seq<Sample> = Seq::empty();
    if depth <= 0 {
        assert(all_valid(none) && Vec3::zero() == radiance_spec(ray, background, *world, depth as int, none, 0));
        return Vec3::zero();
    }
    match world.hit(ray, Fixed { raw: SHADOW_EPSILON_RAW }, Fixed::max_value()) {
        None => {
            assert(all_valid(none) && background == radiance_spec(
                ray,
                background,
                *world,
                depth as int,
                none,
                0,
            ));
            background
        },
        Some(record) => {
            let emitted = record.mat_ptr.emitted(record.u, record.v, record.p);
            let scattered = record.mat_ptr.scatter(&ray, &record, rng);
            let ghost first: Sample = choose|sample: Sample|
                sample.valid() && scattered == #[trigger] record.mat_ptr.scatter_with_spec(
                    ray,
                    record,
                    sample,
                );
            match scattered {
                None => {
                    proof {
                        let one = seq![first];
                        assert(sample_at_spec(one, 0) == first);
                        assert(all_valid(one) && emitted == radiance_spec(
                            ray,
                            background,
                            *world,
                            depth as int,
                            one,
                            0,
                        ));
                    }
                    emitted
                },
                Some(s) => {
                    let rest = ray_color(s.scattered, background, world, depth - 1, rng);
                    let result = emitted.add(s.attenuation.mul(rest));
                    proof {
                        let tail: Seq<Sample> = choose|samples: Seq<Sample>|
                            all_valid(samples) && rest == #[trigger] radiance_spec(
                                s.scattered,
                                background,
                                *world,
                                depth as int - 1,
                                samples,
                                0,
                            );
                        let whole = seq![first] + tail;
                        lemma_radiance_shift(s.scattered, background, *world, depth as int - 1, first, tail, 0);
                        assert(sample_at_spec(whole, 0) == first);
                        assert forall|i: int| 0 <= i < whole.len() implies (#[trigger] whole[i]).valid() by {
                            if i > 0 {
                                assert(whole[i] == tail[i - 1]);
                            }
                        }
                        assert(all_valid(whole) && result == radiance_spec(
                            ray,
                            background,
                            *world,
                            depth as int,
                            whole,
                            0,
                        ));
                    }
                    result
                },
            }
        },
    }
}

/// The byte of a channel whose samples add up to `sum`: the mean of the
/// samples, its square root for gamma two, held to `[0, 0.999]`, times 256
/// and rounded down.
pub open spec fn channel_byte_spec(sum: Fixed, samples_per_pixel: i32) -> u8 {
    let mean = sum.div(Fixed::from_int(samples_per_pixel as i64));
    let held = clamp_spec(mean.sqrt(), Fixed::zero(), Fixed { raw: BRIGHTEST_RAW });
    (held.raw as int * 256 / SCALE as int) as u8
}

/// The byte of one channel.
fn channel_byte(sum: Fixed, samples_per_pixel: i32) -> (r: u8)
    ensures
        r == channel_byte_spec(sum, samples_per_pixel),
{
    let mean = sum.div(Fixed::from_int(samples_per_pixel as i64));
    let held = clamp(mean.sqrt(), Fixed::zero(), Fixed { raw: BRIGHTEST_RAW });
    (held.raw * 256 / SCALE) as u8
}

/// The three bytes of a pixel whose samples add up to `color`.
pub fn write_color(color: Vec3, samples_per_pixel: i32) -> (r: (u8, u8, u8))
    ensures
        r.0 == channel_byte_spec(color.0, samples_per_pixel),
        r.1 == channel_byte_spec(color.1, samples_per_pixel),
        r.2 == channel_byte_spec(color.2, samples_per_pixel),
{
    (
        channel_byte(color.x(), samples_per_pixel),
        channel_byte(color.y(), samples_per_pixel),
        channel_byte(color.z(), samples_per_pixel),
    )
}

} // verus!
