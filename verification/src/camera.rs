//! The camera: from a place on the picture to a ray into the scene.

use vstd::prelude::*;
use crate::degrees_to_radians;
use crate::fixed::Fixed;
use crate::fixed::SCALE;
use crate::random::rand_with_range;
use crate::random::RandomSource;
use crate::ray::Ray;
use crate::trig::tan;
use crate::vec3::Vec3;

verus! {

/// A thin-lens camera with a shutter.
pub struct Camera {
    pub origin: Vec3,
    pub lower_left_corner: Vec3,
    pub horizontal: Vec3,
    pub vertical: Vec3,
    pub u: Vec3,
    pub v: Vec3,
    pub w: Vec3,
    pub lens_radius: Fixed,
    pub time0: Fixed,
    pub time1: Fixed,
}

impl Camera {
    /// The camera at `lookfrom` that looks at `lookat`, with `vup` upwards,
    /// a vertical field of view of `vfov` degrees and a picture
    /// `aspect_ratio` times as wide as high. The lens has the diameter
    /// `aperature` and is focused at the distance `focus_dist`; the
    /// shutter is open from `time0` to `time1`.
    ///
    /// `w` points back from the scene, `u` to the right and `v` up; the
    /// picture plane lies at the focus distance, and is
    /// `2 tan(vfov / 2)` high at distance one.
    pub open spec fn new_spec(
        lookfrom: Vec3,
        lookat: Vec3,
        vup: Vec3,
        vfov: Fixed,
        aspect_ratio: Fixed,
        aperature: Fixed,
        focus_dist: Fixed,
        time0: Fixed,
        time1: Fixed,
    ) -> Camera {
        let theta = degrees_to_radians(vfov);
        let h = tan(theta.div(Fixed::from_int(2)));
        let viewport_height = Fixed::from_int(2).mul(h);
        let viewport_width = aspect_ratio.mul(viewport_height);
        let w = Vec3::unit_vector(lookfrom.sub(lookat));
        let u = Vec3::unit_vector(Vec3::cross(vup, w));
        let v = Vec3::cross(w, u);
        let horizontal = u.scale(focus_dist.mul(viewport_width));
        let vertical = v.scale(focus_dist.mul(viewport_height));
        Camera {
            origin: lookfrom,
            horizontal,
            vertical,
            lower_left_corner: lookfrom.sub(horizontal.div(Fixed::from_int(2))).sub(
                vertical.div(Fixed::from_int(2)),
            ).sub(w.scale(focus_dist)),
            w,
            u,
            v,
            lens_radius: aperature.div(Fixed::from_int(2)),
            time0,
            time1,
        }
    }

    /// The camera at the origin that looks down the negative z axis, with
    /// a field of view of ninety degrees, a picture sixteen to nine, a
    /// lens of diameter two focused at distance one, and no shutter time.
    pub open spec fn default_spec() -> Camera {
        Camera::new_spec(
            Vec3::from_ints(0, 0, 0),
            Vec3::from_ints(0, 0, 1).neg(),
            Vec3::from_ints(0, 1, 0),
            Fixed::from_int(90),
            Fixed::from_ratio(16, 9),
            Fixed::from_int(2),
            Fixed::from_int(1),
            Fixed::from_int(0),
            Fixed::from_int(0),
        )
    }

    /// The ray for the place `(s, t)` of the picture, both from zero to
    /// one, that starts at the point `lens` of the unit disk, scaled to
    /// the lens, and is cast at `time`. It runs from the point of the lens
    /// to the point of the picture plane.
    pub open spec fn ray_through_spec(&self, s: Fixed, t: Fixed, lens: Vec3, time: Fixed) -> Ray {
        let rd = lens.scale(self.lens_radius);
        let offset = self.u.scale(rd.0).add(self.v.scale(rd.1));
        Ray::new(
            self.origin.add(offset),
            self.lower_left_corner.add(self.horizontal.scale(s)).add(self.vertical.scale(t)).sub(
                self.origin,
            ).sub(offset),
            time,
        )
    }

    /// What `get_ray` may draw: a point of the unit disk and a time while
    /// the shutter is open, which is `time0` when it opens for no time.
    pub open spec fn draws_spec(&self, lens: Vec3, time: Fixed) -> bool {
        &&& lens.length_squared().raw < SCALE
        &&& lens.2.raw == 0
        &&& if self.time0.raw < self.time1.raw {
            self.time0.raw <= time.raw < self.time1.raw
        } else {
            time == self.time0
        }
    }

    /// The camera at `lookfrom` that looks at `lookat`.
    #[verifier::when_used_as_spec(new_spec)]
    pub fn new(
        lookfrom: Vec3,
        lookat: Vec3,
        vup: Vec3,
        vfov: Fixed,
        aspect_ratio: Fixed,
        aperature: Fixed,
        focus_dist: Fixed,
        time0: Fixed,
        time1: Fixed,
    ) -> (r: Camera)
        ensures
            r == Camera::new_spec(
                lookfrom,
                lookat,
                vup,
                vfov,
                aspect_ratio,
                aperature,
                focus_dist,
                time0,
                time1,
            ),
    {
        let theta = degrees_to_radians(vfov);
        let h = tan(theta.div(Fixed::from_int(2)));
        let viewport_height = Fixed::from_int(2).mul(h);
        let viewport_width = aspect_ratio.mul(viewport_height);
        let w = Vec3::unit_vector(lookfrom.sub(lookat));
        let u = Vec3::unit_vector(Vec3::cross(vup, w));
        let v = Vec3::cross(w, u);
        let origin = lookfrom;
        let horizontal = u.scale(focus_dist.mul(viewport_width));
        let vertical = v.scale(focus_dist.mul(viewport_height));
        let lower_left_corner = origin.sub(horizontal.div(Fixed::from_int(2))).sub(
            vertical.div(Fixed::from_int(2)),
        ).sub(w.scale(focus_dist));
        Camera {
            origin,
            horizontal,
            vertical,
            lower_left_corner,
            w,
            u,
            v,
            lens_radius: aperature.div(Fixed::from_int(2)),
            time0,
            time1,
        }
    }

    /// The ray through a place of the picture from a point of the lens.
    #[verifier::when_used_as_spec(ray_through_spec)]
    pub fn ray_through(&self, s: Fixed, t: Fixed, lens: Vec3, time: Fixed) -> (r: Ray)
        ensures
            r == self.ray_through_spec(s, t, lens, time),
    {
        let rd = lens.scale(self.lens_radius);
        let offset = self.u.scale(rd.x()).add(self.v.scale(rd.y()));
        Ray::new(
            self.origin.add(offset),
            self.lower_left_corner.add(self.horizontal.scale(s)).add(self.vertical.scale(t)).sub(
                self.origin,
            ).sub(offset),
            time,
        )
    }

    /// The ray for the place `(s, t)` of the picture, from a random point
    /// of the lens and at a random time while the shutter is open.
    pub fn get_ray(&self, s: Fixed, t: Fixed, rng: &mut RandomSource) -> (r: Ray)
        ensures
            exists|lens: Vec3, time: Fixed|
                self.draws_spec(lens, time) && r == #[trigger] self.ray_through_spec(s, t, lens, time),
    {
        let lens = Vec3::rand_in_unit_disk(rng);
        let time = if self.time0.raw < self.time1.raw {
            rand_with_range(rng, self.time0, self.time1)
        } else {
            self.time0
        };
        let r = self.ray_through(s, t, lens, time);
        assert(self.draws_spec(lens, time) && r == self.ray_through_spec(s, t, lens, time));
        r
    }
}

impl Default for Camera {
    /// The camera at the origin that looks down the negative z axis.
    fn default() -> (r: Camera)
        ensures
            r == Camera::default_spec(),
    {
        Camera::new(
            Vec3::from_ints(0, 0, 0),
            Vec3::from_ints(0, 0, 1).neg(),
            Vec3::from_ints(0, 1, 0),
            Fixed::from_int(90),
            Fixed::from_ratio(16, 9),
            Fixed::from_int(2),
            Fixed::from_int(1),
            Fixed::from_int(0),
            Fixed::from_int(0),
        )
    }
}

} // verus!
