//! Textures: the colour of a surface at a point.

use vstd::prelude::*;
use std::rc::Rc;
use image::DynamicImage;
use image::GenericImageView;
use crate::fixed::clamp;
use crate::fixed::clamp_spec;
use crate::fixed::Fixed;
use crate::fixed::SCALE;
use crate::noise::Perlin;
use crate::random::RandomSource;
use crate::trig::sin;
use crate::trig::sin_spec;
use crate::vec3::Color;
use crate::vec3::Vec3;

verus! {

/// `image::DynamicImage`: a decoded picture, read only through the two
/// functions below.
#[verifier::external_type_specification]
#[verifier::external_body]
pub struct ExDynamicImage(image::DynamicImage);

/// The width and the height of a decoded image, in pixels.
pub uninterp spec fn raster_size(image: DynamicImage) -> (u32, u32);

/// The pixels of a decoded image: red, green and blue of the pixel in
/// column `x` and row `y`, rows counted from the top, under the key `(x, y)`.
pub uninterp spec fn raster(image: DynamicImage) -> Map<(int, int), (u8, u8, u8)>;

/// `image::GenericImageView::dimensions` of a `DynamicImage`: its width and
/// height.
#[verifier::external_body]
fn image_dimensions(image: &DynamicImage) -> (r: (u32, u32))
    ensures
        r == raster_size(*image),
{
    image.dimensions()
}

/// `image::GenericImageView::get_pixel` of a `DynamicImage`: the pixel at
/// `(x, y)`, without its alpha channel. The outside function panics for a
/// place outside the image.
#[verifier::external_body]
fn image_pixel(image: &DynamicImage, x: u32, y: u32) -> (r: (u8, u8, u8))
    requires
        x < raster_size(*image).0,
        y < raster_size(*image).1,
    ensures
        r == raster(*image)[(x as int, y as int)],
{
    let pixel = image.get_pixel(x, y);
    (pixel[0], pixel[1], pixel[2])
}

/// The pixel index along an axis of `size` pixels for the coordinate `s`:
/// `s`, held to `[0, 1]`, times `size`, rounded down, and the last pixel
/// for `s` equal to one.
pub open spec fn pixel_index_spec(s: Fixed, size: u32) -> int {
    let scaled = clamp_spec(s, Fixed::zero(), Fixed::one()).raw as int * size as int / SCALE as int;
    if scaled >= size as int {
        size as int - 1
    } else {
        scaled
    }
}

/// The pixel index along an axis for a coordinate.
fn pixel_index(s: Fixed, size: u32) -> (r: u32)
    requires
        size > 0,
    ensures
        r as int == pixel_index_spec(s, size),
        r < size,
{
    let held = clamp(s, Fixed::zero(), Fixed::one());
    assert(0 <= held.raw as int * size as int <= 1_000_000 * 0xffff_ffff) by (nonlinear_arith)
        requires
            0 <= held.raw <= 1_000_000,
            0 <= size <= 0xffff_ffff,
    ;
    let scaled: u64 = (held.raw as u64) * (size as u64) / (SCALE as u64);
    if scaled >= size as u64 {
        size - 1
    } else {
        scaled as u32
    }
}

/// One colour everywhere.
pub struct SolidColor {
    pub color: Color,
}

/// A three-dimensional checker pattern of two textures.
pub struct CheckerTexture {
    pub odd: Rc<Texture>,
    pub even: Rc<Texture>,
}

/// Marble-like noise: a colour scaled by a sine through turbulence.
pub struct NoiseTexture {
    pub noise: Perlin,
    pub scale: Fixed,
    pub color: Color,
}

/// A picture, looked up by the surface coordinates.
pub struct ImageTexture {
    image: DynamicImage,
}

/// Any texture.
pub enum Texture {
    Solid(SolidColor),
    Checker(CheckerTexture),
    Noise(NoiseTexture),
    Image(ImageTexture),
}

impl SolidColor {
    /// The colour, whatever the place.
    pub open spec fn value_spec(&self, u: Fixed, v: Fixed, p: Vec3) -> Color {
        self.color
    }

    /// The texture of one colour.
    pub fn new(color: Color) -> (r: SolidColor)
        ensures
            r.color == color,
    {
        SolidColor { color }
    }

    /// The colour at the surface coordinates `(u, v)` and the point `p`.
    pub fn value(&self, u: Fixed, v: Fixed, p: Vec3) -> (r: Color)
        ensures
            r == self.value_spec(u, v, p),
    {
        self.color
    }
}

/// The sign that picks the field of the checker pattern at `p`: the
/// product of the sines of ten times each coordinate.
pub open spec fn checker_sines_spec(p: Vec3) -> Fixed {
    sin_spec(Fixed::from_int(10).mul(p.0)).mul(sin_spec(Fixed::from_int(10).mul(p.1))).mul(
        sin_spec(Fixed::from_int(10).mul(p.2)),
    )
}

impl CheckerTexture {
    /// The odd texture where the product of sines is negative, the even
    /// one elsewhere.
    pub open spec fn value_spec(&self, u: Fixed, v: Fixed, p: Vec3) -> Color
        decreases self,
    {
        if checker_sines_spec(p).raw < 0 {
            self.odd.value_spec(u, v, p)
        } else {
            self.even.value_spec(u, v, p)
        }
    }

    /// A checker pattern of two colours.
    pub fn new(odd: Color, even: Color) -> (r: CheckerTexture)
        ensures
            *r.odd == Texture::Solid(SolidColor { color: odd }),
            *r.even == Texture::Solid(SolidColor { color: even }),
    {
        CheckerTexture {
            odd: Rc::new(Texture::Solid(SolidColor::new(odd))),
            even: Rc::new(Texture::Solid(SolidColor::new(even))),
        }
    }

    /// A checker pattern of two textures.
    pub fn from_textures(odd: Rc<Texture>, even: Rc<Texture>) -> (r: CheckerTexture)
        ensures
            r.odd == odd,
            r.even == even,
    {
        CheckerTexture { odd, even }
    }

    /// The colour at the surface coordinates `(u, v)` and the point `p`.
    pub fn value(&self, u: Fixed, v: Fixed, p: Vec3) -> (r: Color)
        ensures
            r == self.value_spec(u, v, p),
        decreases self,
    {
        let sines = sin(Fixed::from_int(10).mul(p.x())).mul(sin(Fixed::from_int(10).mul(p.y()))).mul(
            sin(Fixed::from_int(10).mul(p.z())),
        );
        if sines.raw < 0 {
            self.odd.value(u, v, p)
        } else {
            self.even.value(u, v, p)
        }
    }
}

impl NoiseTexture {
    /// The colour times the size of `sin(scale z + 10 turbulence(p))`.
    pub open spec fn value_spec(&self, u: Fixed, v: Fixed, p: Vec3) -> Color {
        self.color.scale(
            sin_spec(self.scale.mul(p.2).add(Fixed::from_int(10).mul(self.noise.turb(p)))).abs(),
        )
    }

    /// White noise texture with fresh tables.
    pub fn new(scale: Fixed, rng: &mut RandomSource) -> (r: NoiseTexture)
        ensures
            r.scale == scale,
            r.color == Vec3::from_ints(1, 1, 1),
            r.noise.freshly_made(),
    {
        NoiseTexture { noise: Perlin::new(rng), scale, color: Vec3::from_ints(1, 1, 1) }
    }

    /// Noise texture of a colour, with fresh tables.
    pub fn with_color(scale: Fixed, color: Color, rng: &mut RandomSource) -> (r: NoiseTexture)
        ensures
            r.scale == scale,
            r.color == color,
            r.noise.freshly_made(),
    {
        NoiseTexture { noise: Perlin::new(rng), scale, color }
    }

    /// Sets the scale of the pattern.
    pub fn set_scale(&mut self, scale: Fixed)
        ensures
            final(self).scale == scale,
            final(self).color == old(self).color,
            final(self).noise == old(self).noise,
    {
        self.scale = scale;
    }

    /// The colour at the surface coordinates `(u, v)` and the point `p`.
    pub fn value(&self, u: Fixed, v: Fixed, p: Vec3) -> (r: Color)
        ensures
            r == self.value_spec(u, v, p),
    {
        self.color.scale(
            sin(self.scale.mul(p.z()).add(Fixed::from_int(10).mul(self.noise.turb(p)))).abs(),
        )
    }
}

impl ImageTexture {
    /// The picture has pixels.
    #[verifier::type_invariant]
    closed spec fn not_empty(self) -> bool {
        raster_size(self.image).0 > 0 && raster_size(self.image).1 > 0
    }

    /// The picture.
    pub closed spec fn image(&self) -> DynamicImage {
        self.image
    }

    /// The colour of the pixel under `(u, v)`: `u` runs from the left edge
    /// to the right, `v` from the bottom edge to the top, both held to
    /// `[0, 1]`.
    pub open spec fn value_spec(&self, u: Fixed, v: Fixed, p: Vec3) -> Color {
        let size = raster_size(self.image());
        let x = pixel_index_spec(u, size.0);
        let y = pixel_index_spec(Fixed::one().sub(clamp_spec(v, Fixed::zero(), Fixed::one())), size.1);
        Vec3::from_bytes(raster(self.image())[(x, y)])
    }

    /// A texture of a picture; `None` for a picture without pixels.
    pub fn new(image: DynamicImage) -> (r: Option<ImageTexture>)
        ensures
            r is Some <==> raster_size(image).0 > 0 && raster_size(image).1 > 0,
            r matches Some(texture) ==> texture.image() == image,
    {
        let (width, height) = image_dimensions(&image);
        if width > 0 && height > 0 {
            Some(ImageTexture { image })
        } else {
            None
        }
    }

    /// The colour at the surface coordinates `(u, v)` and the point `p`.
    pub fn value(&self, u: Fixed, v: Fixed, p: Vec3) -> (r: Color)
        ensures
            r == self.value_spec(u, v, p),
    {
        proof {
            use_type_invariant(self);
        }
        let (width, height) = image_dimensions(&self.image);
        let x = pixel_index(u, width);
        let y = pixel_index(Fixed::one().sub(clamp(v, Fixed::zero(), Fixed::one())), height);
        Vec3::from_bytes(image_pixel(&self.image, x, y))
    }
}

impl Texture {
    /// The colour at the surface coordinates `(u, v)` and the point `p`.
    pub open spec fn value_spec(&self, u: Fixed, v: Fixed, p: Vec3) -> Color
        decreases self,
    {
        match self {
            Texture::Solid(t) => t.value_spec(u, v, p),
            Texture::Checker(t) => t.value_spec(u, v, p),
            Texture::Noise(t) => t.value_spec(u, v, p),
            Texture::Image(t) => t.value_spec(u, v, p),
        }
    }

    /// The colour at the surface coordinates `(u, v)` and the point `p`.
    pub fn value(&self, u: Fixed, v: Fixed, p: Vec3) -> (r: Color)
        ensures
            r == self.value_spec(u, v, p),
        decreases self,
    {
        match self {
            Texture::Solid(t) => t.value(u, v, p),
            Texture::Checker(t) => t.value(u, v, p),
            Texture::Noise(t) => t.value(u, v, p),
            Texture::Image(t) => t.value(u, v, p),
        }
    }
}

} // verus!
