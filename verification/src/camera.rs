//! The camera: it aims rays through the pixels of its viewport, follows each
//! through the scene, and writes the image that results.

use vstd::prelude::*;
use vstd::string::StringExecFns;
use crate::color::decimal;
use crate::color::push_decimal;
use crate::color::spec_write_color;
use crate::color::write_color;
use crate::degrees_to_radians;
use crate::hittable::Hittable;
use crate::interval::Interval;
use crate::material::Material;
use crate::ray::Ray;
use crate::rng::MAX_ATTEMPTS;
use crate::rng::Rng;
use crate::scalar::MAX_RAW;
use crate::scalar::PI_RAW;
use crate::scalar::Scalar;
use crate::scalar::SCALE;
use crate::scalar_laws::lemma_mul_zero;
use crate::scalar_laws::lemma_trigonometry_at_zero;
use crate::scalar_laws::lemma_trunc_range;
use crate::scalar_laws::lemma_zero_div;
use crate::spec_degrees_to_radians;
use crate::scalar_laws::lemma_tangent_of_half_right_angle;
use crate::scalar::MODERATE_RAW;
use crate::vec3::STEADY_RAW;
use crate::vec3::Vec3;
use crate::vec3_laws::lemma_cross_across_first;
use crate::vec3_laws::lemma_cross_of_unit_pair_is_steady;
use crate::vec3_laws::lemma_largest_bounds;
use crate::vec3_laws::lemma_normalize_has_unit_length;
use crate::vec3_laws::lemma_cross_across_second;
use crate::vec3_laws::lemma_normalize_keeps_across;
use crate::vec3_laws::lemma_length_zero;
use crate::vec3_laws::lemma_normalize_unit_or_zero;

verus! {

/// Raw value of the nearest distance at which a hit counts: `0.0001`, rounded
/// down. It keeps a bounced ray from hitting the surface it starts on.
pub const T_MIN_RAW: i64 = 429496;

/// Raw value of `0.5`.
pub const HALF_RAW: i64 = 2147483648;

/// Raw value of the green of the sky: `0.7`, rounded down.
pub const SKY_GREEN_RAW: i64 = 3006477107;

/// The settings of a camera, and the viewport that `initialize` derives from
/// them.
#[derive(Clone, Copy, Debug, PartialEq, Eq, Structural)]
pub struct Camera {
    /// Width of the image over its height.
    pub aspect_ratio: Scalar,
    /// Width of the image in pixels.
    pub image_width: u32,
    /// Rays averaged for each pixel.
    pub samples_per_pixel: u32,
    /// Bounces after which a ray carries no more light.
    pub max_depth: u32,
    /// Vertical field of view, in degrees.
    pub vfov: Scalar,
    /// The direction that is up to the camera.
    pub vup: Vec3<Scalar>,
    /// Where the camera stands.
    pub lookfrom: Vec3<Scalar>,
    /// What the camera looks at.
    pub lookat: Vec3<Scalar>,
    /// Angle of the cone from the focus plane to the lens, in degrees; `0`
    /// for a pinhole.
    pub defocus_angle: Scalar,
    /// Distance from the camera to the plane in perfect focus.
    pub focus_dist: Scalar,
    /// Height of the image in pixels.
    pub image_height: u32,
    /// The weight of one sample in a pixel.
    pub pixel_samples_scale: Scalar,
    /// Where the rays start; the middle of the lens where there is one.
    pub centre: Vec3<Scalar>,
    /// The middle of the pixel in the upper left corner.
    pub pixel_00_origin_loc: Vec3<Scalar>,
    /// From a pixel to the one on its right.
    pub pixel_delta_u: Vec3<Scalar>,
    /// From a pixel to the one below.
    pub pixel_delta_v: Vec3<Scalar>,
    /// The camera's right.
    pub u: Vec3<Scalar>,
    /// The camera's up.
    pub v: Vec3<Scalar>,
    /// Against the camera's view.
    pub w: Vec3<Scalar>,
    /// The radius of the lens along the camera's right.
    pub defocus_disk_u: Vec3<Scalar>,
    /// The radius of the lens along the camera's up.
    pub defocus_disk_v: Vec3<Scalar>,
}

/// The interval of the distances at which a hit counts.
pub open spec fn spec_trace_interval() -> Interval {
    Interval { min: Scalar { raw: T_MIN_RAW }, max: Scalar { raw: MAX_RAW } }
}

/// The light of the sky in the direction of `ray`: white at the bottom, blue
/// at the top, and in between by `t = 0.5 * (y + 1)` of the unit direction.
pub open spec fn spec_sky(ray: Ray) -> Vec3<Scalar> {
    let one = Scalar { raw: SCALE };
    let t = Scalar { raw: HALF_RAW }.spec_mul(ray.direction.spec_normalize().y.spec_add(one));
    let rest = one.spec_sub(t);
    Vec3 {
        x: rest.spec_mul(one).spec_add(t.spec_mul(Scalar { raw: HALF_RAW })),
        y: rest.spec_mul(one).spec_add(t.spec_mul(Scalar { raw: SKY_GREEN_RAW })),
        z: rest.spec_mul(one).spec_add(t.spec_mul(one)),
    }
}

/// The light that comes back along `ray` after at most `depth` bounces, and
/// the generator as the bounces leave it.
pub open spec fn spec_ray_color<H: Hittable>(world: &H, ray: Ray, depth: nat, rng: Rng) -> (
    Vec3<Scalar>,
    Rng,
)
    decreases depth,
{
    if depth == 0 {
        (Vec3::<Scalar>::spec_zero(), rng)
    } else {
        match world.spec_hit(ray, spec_trace_interval()) {
            Some(record) => match record.mat.spec_outcome(ray, record, rng) {
                (Some((attenuation, scattered)), next) => {
                    let (light, last) = spec_ray_color(world, scattered, (depth - 1) as nat, next);
                    (attenuation.spec_hadamard(light), last)
                },
                (None, next) => (Vec3::<Scalar>::spec_zero(), next),
            },
            None => (spec_sky(ray), rng),
        }
    }
}

/// The first three lines of the image: the format, the size, the brightest
/// value.
pub open spec fn spec_header(width: u32, height: u32) -> Seq<char> {
    seq!['P', '3', '\n'] + decimal(width as nat).push(' ') + decimal(height as nat)
        + seq!['\n', '2', '5', '5', '\n']
}

impl Camera {
    pub open spec fn spec_new() -> Camera {
        Camera {
            aspect_ratio: Scalar { raw: 0 },
            image_width: 0,
            samples_per_pixel: 1,
            max_depth: 10,
            vfov: Scalar::spec_from_int(90),
            lookfrom: Vec3::<Scalar>::spec_zero(),
            lookat: Vec3 {
                x: Scalar { raw: 0 },
                y: Scalar { raw: 0 },
                z: Scalar::spec_from_int(-1),
            },
            vup: Vec3 { x: Scalar { raw: 0 }, y: Scalar { raw: SCALE }, z: Scalar { raw: 0 } },
            defocus_angle: Scalar { raw: 0 },
            focus_dist: Scalar::spec_from_int(10),
            centre: Vec3::<Scalar>::spec_zero(),
            image_height: 0,
            pixel_samples_scale: Scalar { raw: HALF_RAW },
            pixel_00_origin_loc: Vec3::<Scalar>::spec_zero(),
            pixel_delta_u: Vec3::<Scalar>::spec_zero(),
            pixel_delta_v: Vec3::<Scalar>::spec_zero(),
            u: Vec3::<Scalar>::spec_zero(),
            v: Vec3::<Scalar>::spec_zero(),
            w: Vec3::<Scalar>::spec_zero(),
            defocus_disk_u: Vec3::<Scalar>::spec_zero(),
            defocus_disk_v: Vec3::<Scalar>::spec_zero(),
        }
    }

    /// The width over the aspect ratio, cut to its whole part, and at least `1`.
    pub open spec fn spec_image_height(self) -> u32 {
        let rows = Scalar::spec_from_int(self.image_width as int).spec_div(
            self.aspect_ratio,
        ).spec_trunc();
        if rows < 1 {
            1
        } else {
            rows as u32
        }
    }

    /// Half the height of the viewport at distance `1`: the tangent of half
    /// the field of view.
    pub open spec fn spec_half_height(self) -> Scalar {
        spec_degrees_to_radians(self.vfov).spec_div(Scalar::spec_from_int(2)).spec_tan()
    }

    pub open spec fn spec_viewport_height(self) -> Scalar {
        Scalar::spec_from_int(2).spec_mul(self.spec_half_height()).spec_mul(self.focus_dist)
    }

    pub open spec fn spec_viewport_width(self) -> Scalar {
        self.spec_viewport_height().spec_mul(
            Scalar::spec_from_int(self.image_width as int),
        ).spec_div(Scalar::spec_from_int(self.spec_image_height() as int))
    }

    /// Against the view, at unit length.
    pub open spec fn spec_w(self) -> Vec3<Scalar> {
        self.lookfrom.spec_sub(self.lookat).spec_normalize()
    }

    /// The camera's right, at unit length.
    pub open spec fn spec_u(self) -> Vec3<Scalar> {
        self.vup.spec_cross(self.spec_w()).spec_normalize()
    }

    /// The camera's up: the cross product of `w` and `u`, brought to unit
    /// length, which rounding would else leave a few raw units off.
    pub open spec fn spec_v(self) -> Vec3<Scalar> {
        self.spec_w().spec_cross(self.spec_u()).spec_normalize()
    }

    /// Along the upper edge of the viewport.
    pub open spec fn spec_viewport_u(self) -> Vec3<Scalar> {
        self.spec_u().spec_scale(self.spec_viewport_width())
    }

    /// Down the left edge of the viewport.
    pub open spec fn spec_viewport_v(self) -> Vec3<Scalar> {
        self.spec_v().spec_neg().spec_scale(self.spec_viewport_height())
    }

    pub open spec fn spec_pixel_delta_u(self) -> Vec3<Scalar> {
        self.spec_viewport_u().spec_shrink(Scalar::spec_from_int(self.image_width as int))
    }

    pub open spec fn spec_pixel_delta_v(self) -> Vec3<Scalar> {
        self.spec_viewport_v().spec_shrink(
            Scalar::spec_from_int(self.spec_image_height() as int),
        )
    }

    /// The upper left corner of the viewport.
    pub open spec fn spec_viewport_corner(self) -> Vec3<Scalar> {
        let two = Scalar::spec_from_int(2);
        self.lookfrom.spec_sub(self.spec_w().spec_scale(self.focus_dist)).spec_sub(
            self.spec_viewport_u().spec_shrink(two),
        ).spec_sub(self.spec_viewport_v().spec_shrink(two))
    }

    /// The radius of the lens: the focus distance times the tangent of half
    /// the defocus angle.
    pub open spec fn spec_defocus_radius(self) -> Scalar {
        self.focus_dist.spec_mul(
            spec_degrees_to_radians(self.defocus_angle.spec_div(Scalar::spec_from_int(2))).spec_tan(),
        )
    }

    /// The camera with its viewport derived from its settings.
    pub open spec fn spec_initialize(self) -> Camera {
        let two = Scalar::spec_from_int(2);
        Camera {
            image_height: self.spec_image_height(),
            pixel_samples_scale: Scalar { raw: SCALE }.spec_div(
                Scalar::spec_from_int(self.samples_per_pixel as int),
            ),
            centre: self.lookfrom,
            w: self.spec_w(),
            u: self.spec_u(),
            v: self.spec_v(),
            pixel_delta_u: self.spec_pixel_delta_u(),
            pixel_delta_v: self.spec_pixel_delta_v(),
            pixel_00_origin_loc: self.spec_viewport_corner().spec_add(
                self.spec_pixel_delta_u().spec_shrink(two),
            ).spec_add(self.spec_pixel_delta_v().spec_shrink(two)),
            defocus_disk_u: self.spec_u().spec_scale(self.spec_defocus_radius()),
            defocus_disk_v: self.spec_v().spec_scale(self.spec_defocus_radius()),
            ..self
        }
    }

    /// The viewport is the one that the settings call for.
    pub open spec fn spec_initialized(self) -> bool {
        self == self.spec_initialize()
    }

    /// A point of the square `[-0.5, 0.5)^2` around a pixel's middle.
    pub open spec fn spec_sample_square(rng: Rng) -> Vec3<Scalar> {
        Vec3 {
            x: rng.spec_float().spec_sub(Scalar { raw: HALF_RAW }),
            y: rng.spec_next().spec_float().spec_sub(Scalar { raw: HALF_RAW }),
            z: Scalar { raw: 0 },
        }
    }

    /// A point of the lens.
    pub open spec fn spec_defocus_disk_sample(self, rng: Rng) -> (Vec3<Scalar>, Rng) {
        let (p, next) = Vec3::<Scalar>::spec_random_in_unit_disk(rng, MAX_ATTEMPTS as nat);
        (
            self.centre.spec_add(self.defocus_disk_u.spec_scale(p.x)).spec_add(
                self.defocus_disk_v.spec_scale(p.y),
            ),
            next,
        )
    }

    /// The point of the viewport that a sample of the pixel in row `i` and
    /// column `j` aims at.
    pub open spec fn spec_pixel_sample(self, i: u32, j: u32, offset: Vec3<Scalar>) -> Vec3<
        Scalar,
    > {
        self.pixel_00_origin_loc.spec_add(
            self.pixel_delta_v.spec_scale(offset.y.spec_add(Scalar::spec_from_int(i as int))),
        ).spec_add(
            self.pixel_delta_u.spec_scale(offset.x.spec_add(Scalar::spec_from_int(j as int))),
        )
    }

    /// The ray of one sample of the pixel in row `i` and column `j`: from the
    /// centre, or from a point of the lens where there is one, to a point of
    /// the pixel's square.
    pub open spec fn spec_get_ray(self, i: u32, j: u32, rng: Rng) -> (Ray, Rng) {
        let target = self.spec_pixel_sample(i, j, Self::spec_sample_square(rng));
        let after = rng.spec_skip(2);
        if self.defocus_angle.raw <= 0 {
            (Ray { origin: self.centre, direction: target.spec_sub(self.centre) }, after)
        } else {
            let (origin, next) = self.spec_defocus_disk_sample(after);
            (Ray { origin, direction: target.spec_sub(origin) }, next)
        }
    }

    /// The sum of the light of the first `samples` samples of a pixel.
    pub open spec fn spec_pixel_sum<H: Hittable>(
        self,
        world: &H,
        i: u32,
        j: u32,
        samples: nat,
        rng: Rng,
    ) -> (Vec3<Scalar>, Rng)
        decreases samples,
    {
        if samples == 0 {
            (Vec3::<Scalar>::spec_zero(), rng)
        } else {
            let (sum, before) = self.spec_pixel_sum(world, i, j, (samples - 1) as nat, rng);
            let (ray, aimed) = self.spec_get_ray(i, j, before);
            let (light, after) = spec_ray_color(world, ray, self.max_depth as nat, aimed);
            (sum.spec_add(light), after)
        }
    }

    /// The line of a pixel: the mean of its samples, as bytes.
    pub open spec fn spec_pixel_text<H: Hittable>(self, world: &H, i: u32, j: u32, rng: Rng) -> (
        Seq<char>,
        Rng,
    ) {
        let (sum, after) = self.spec_pixel_sum(world, i, j, self.samples_per_pixel as nat, rng);
        (spec_write_color(sum.spec_scale(self.pixel_samples_scale)), after)
    }

    /// The lines of the first `columns` pixels of row `i`, from left to right.
    pub open spec fn spec_row<H: Hittable>(self, world: &H, i: u32, columns: nat, rng: Rng) -> (
        Seq<char>,
        Rng,
    )
        decreases columns,
    {
        if columns == 0 {
            (Seq::<char>::empty(), rng)
        } else {
            let (text, before) = self.spec_row(world, i, (columns - 1) as nat, rng);
            let (line, after) = self.spec_pixel_text(world, i, (columns - 1) as u32, before);
            (text + line, after)
        }
    }

    /// The lines of the first `rows` rows of the image, from the top.
    pub open spec fn spec_rows<H: Hittable>(self, world: &H, rows: nat, rng: Rng) -> (
        Seq<char>,
        Rng,
    )
        decreases rows,
    {
        if rows == 0 {
            (Seq::<char>::empty(), rng)
        } else {
            let (text, before) = self.spec_rows(world, (rows - 1) as nat, rng);
            let (row, after) = self.spec_row(
                world,
                (rows - 1) as u32,
                self.image_width as nat,
                before,
            );
            (text + row, after)
        }
    }

    /// The whole image as text, for a camera whose viewport is derived: the
    /// header, then a line for every pixel, row by row from the top.
    pub open spec fn spec_image<H: Hittable>(self, world: &H, rng: Rng) -> (Seq<char>, Rng) {
        let (pixels, after) = self.spec_rows(world, self.image_height as nat, rng);
        (spec_header(self.image_width, self.image_height) + pixels, after)
    }

    pub fn new() -> (r: Self)
        ensures
            r == Self::spec_new(),
    {
        Self {
            aspect_ratio: Scalar::zero(),
            image_width: 0,
            samples_per_pixel: 1,
            max_depth: 10,
            vfov: Scalar::from_int(90),
            lookfrom: Vec3::origin(),
            lookat: Vec3::new(Scalar::zero(), Scalar::zero(), Scalar::from_int(-1)),
            vup: Vec3::new(Scalar::zero(), Scalar::one(), Scalar::zero()),
            defocus_angle: Scalar::zero(),
            focus_dist: Scalar::from_int(10),
            centre: Vec3::origin(),
            image_height: 0,
            pixel_samples_scale: Scalar::from_raw(HALF_RAW),
            pixel_00_origin_loc: Vec3::origin(),
            pixel_delta_u: Vec3::origin(),
            pixel_delta_v: Vec3::origin(),
            u: Vec3::origin(),
            v: Vec3::origin(),
            w: Vec3::origin(),
            defocus_disk_u: Vec3::origin(),
            defocus_disk_v: Vec3::origin(),
        }
    }

    /// Derives the viewport from the settings.
    pub fn initialize(&mut self)
        ensures
            *final(self) == old(self).spec_initialize(),
            final(self).image_height >= 1,
            final(self).u.spec_unit_or_zero(),
            final(self).v.spec_unit_or_zero(),
            final(self).w.spec_unit_or_zero(),
    {
        proof {
            lemma_basis_has_unit_length(*self);
        }
        let rows: i64 = (Scalar::from_u32(self.image_width) / self.aspect_ratio).trunc();
        self.image_height = if rows < 1 {
            1
        } else {
            rows as u32
        };
        self.pixel_samples_scale = Scalar::one() / Scalar::from_u32(self.samples_per_pixel);
        self.centre = self.lookfrom;
        let two: Scalar = Scalar::from_int(2);
        let theta: Scalar = degrees_to_radians(self.vfov);
        let h: Scalar = (theta / two).tan();
        self.w = (self.lookfrom - self.lookat).normalize();
        self.u = self.vup.cross(&self.w).normalize();
        self.v = self.w.cross(&self.u).normalize();
        let viewport_height: Scalar = two * h * self.focus_dist;
        let viewport_width: Scalar = viewport_height * Scalar::from_u32(self.image_width)
            / Scalar::from_u32(self.image_height);
        let viewport_u: Vec3<Scalar> = self.u * viewport_width;
        let viewport_v: Vec3<Scalar> = self.v.negate() * viewport_height;
        self.pixel_delta_u = viewport_u / Scalar::from_u32(self.image_width);
        self.pixel_delta_v = viewport_v / Scalar::from_u32(self.image_height);
        let viewport_00_origin: Vec3<Scalar> = self.centre - (self.w * self.focus_dist)
            - viewport_u / two - viewport_v / two;
        self.pixel_00_origin_loc = viewport_00_origin + self.pixel_delta_u / two
            + self.pixel_delta_v / two;
        let defocus_radius: Scalar = self.focus_dist * degrees_to_radians(
            self.defocus_angle / two,
        ).tan();
        self.defocus_disk_u = self.u * defocus_radius;
        self.defocus_disk_v = self.v * defocus_radius;
    }

    /// A point of the square `[-0.5, 0.5)^2` around a pixel's middle.
    pub fn sample_square(rng: &mut Rng) -> (r: Vec3<Scalar>)
        ensures
            r == Self::spec_sample_square(*old(rng)),
            *final(rng) == old(rng).spec_skip(2),
            -HALF_RAW <= r.x.raw < HALF_RAW,
            -HALF_RAW <= r.y.raw < HALF_RAW,
            r.z.raw == 0,
    {
        proof {
            reveal_with_fuel(Rng::spec_skip, 3);
        }
        let x: Scalar = rng.random_float() - Scalar::from_raw(HALF_RAW);
        let y: Scalar = rng.random_float() - Scalar::from_raw(HALF_RAW);
        Vec3::new(x, y, Scalar::zero())
    }

    /// A point of the lens.
    pub fn defocus_disk_sample(&self, rng: &mut Rng) -> (r: Vec3<Scalar>)
        ensures
            (r, *final(rng)) == self.spec_defocus_disk_sample(*old(rng)),
    {
        let p: Vec3<Scalar> = Vec3::random_in_unit_disk(rng);
        self.centre + (self.defocus_disk_u * p.x) + (self.defocus_disk_v * p.y)
    }

    /// The ray of one sample of the pixel in row `i` and column `j`.
    pub fn get_ray(&self, i: u32, j: u32, rng: &mut Rng) -> (r: Ray)
        ensures
            (r, *final(rng)) == self.spec_get_ray(i, j, *old(rng)),
    {
        let offset: Vec3<Scalar> = Self::sample_square(rng);
        let pixel_sample: Vec3<Scalar> = self.pixel_00_origin_loc + self.pixel_delta_v * (offset.y
            + Scalar::from_u32(i)) + self.pixel_delta_u * (offset.x + Scalar::from_u32(j));
        let ray_origin: Vec3<Scalar> = if self.defocus_angle.raw <= 0 {
            self.centre
        } else {
            self.defocus_disk_sample(rng)
        };
        let ray_direction: Vec3<Scalar> = pixel_sample - ray_origin;
        Ray::new(ray_origin, ray_direction)
    }

    /// The light of the sky in the direction of `ray`.
    pub fn sky(ray: &Ray) -> (r: Vec3<Scalar>)
        ensures
            r == spec_sky(*ray),
    {
        let one: Scalar = Scalar::one();
        let unit_direction: Vec3<Scalar> = ray.direction().normalize();
        let t: Scalar = Scalar::from_raw(HALF_RAW) * (unit_direction.y + one);
        Vec3::new(
            (one - t) * one + t * Scalar::from_raw(HALF_RAW),
            (one - t) * one + t * Scalar::from_raw(SKY_GREEN_RAW),
            (one - t) * one + t * one,
        )
    }

    /// The light that comes back along `ray` after at most `depth` bounces.
    pub fn ray_color<H: Hittable>(ray: &Ray, depth: u32, world: &H, rng: &mut Rng) -> (r: Vec3<
        Scalar,
    >)
        ensures
            (r, *final(rng)) == spec_ray_color(world, *ray, depth as nat, *old(rng)),
        decreases depth,
    {
        if depth == 0 {
            return Vec3::origin();
        }
        let interval: Interval = Interval::new(Scalar::from_raw(T_MIN_RAW), Scalar::infinity());
        match world.hit(ray, &interval) {
            Some(hit_record) => {
                match hit_record.mat.scatter(ray, &hit_record, rng) {
                    Some((attenuation, scattered)) => {
                        attenuation * Self::ray_color(&scattered, depth - 1, world, rng)
                    },
                    None => Vec3::origin(),
                }
            },
            None => Self::sky(ray),
        }
    }

    /// The line of the pixel in row `i` and column `j`.
    pub fn pixel_text<H: Hittable>(&self, world: &H, i: u32, j: u32, rng: &mut Rng) -> (r: String)
        ensures
            (r@, *final(rng)) == self.spec_pixel_text(world, i, j, *old(rng)),
    {
        let mut pixel_color: Vec3<Scalar> = Vec3::origin();
        let mut k: u32 = 0;
        while k < self.samples_per_pixel
            invariant
                k <= self.samples_per_pixel,
                (pixel_color, *rng) == self.spec_pixel_sum(world, i, j, k as nat, *old(rng)),
            decreases self.samples_per_pixel - k,
        {
            let r: Ray = self.get_ray(i, j, rng);
            let light: Vec3<Scalar> = Self::ray_color(&r, self.max_depth, world, rng);
            pixel_color = pixel_color + light;
            k = k + 1;
        }
        write_color(&(pixel_color * self.pixel_samples_scale))
    }

    /// The lines of the pixels of row `i`.
    pub fn row_text<H: Hittable>(&self, world: &H, i: u32, rng: &mut Rng) -> (r: String)
        ensures
            (r@, *final(rng)) == self.spec_row(world, i, self.image_width as nat, *old(rng)),
    {
        let mut text: String = String::new();
        let mut j: u32 = 0;
        while j < self.image_width
            invariant
                j <= self.image_width,
                (text@, *rng) == self.spec_row(world, i, j as nat, *old(rng)),
            decreases self.image_width - j,
        {
            let line: String = self.pixel_text(world, i, j, rng);
            text.append(line.as_str());
            j = j + 1;
        }
        text
    }

    /// The lines of all rows of the image, from the top.
    pub fn rows_text<H: Hittable>(&self, world: &H, rng: &mut Rng) -> (r: String)
        ensures
            (r@, *final(rng)) == self.spec_rows(world, self.image_height as nat, *old(rng)),
    {
        let mut text: String = String::new();
        let mut i: u32 = 0;
        while i < self.image_height
            invariant
                i <= self.image_height,
                (text@, *rng) == self.spec_rows(world, i as nat, *old(rng)),
            decreases self.image_height - i,
        {
            let row: String = self.row_text(world, i, rng);
            text.append(row.as_str());
            i = i + 1;
        }
        text
    }

    /// The image as text, for a camera whose viewport is derived.
    pub fn image_text<H: Hittable>(&self, world: &H, rng: &mut Rng) -> (image_data: String)
        ensures
            (image_data@, *final(rng)) == self.spec_image(world, *old(rng)),
    {
        let mut image_data: String = Self::header(self.image_width, self.image_height);
        let rows: String = self.rows_text(world, rng);
        image_data.append(rows.as_str());
        image_data
    }

    /// Derives the viewport, renders `world`, and returns the image as text.
    pub fn render<H: Hittable>(&mut self, world: &H, rng: &mut Rng) -> (image_data: String)
        ensures
            *final(self) == old(self).spec_initialize(),
            (image_data@, *final(rng)) == final(self).spec_image(world, *old(rng)),
    {
        self.initialize();
        self.image_text(world, rng)
    }

    /// The first three lines of an image of the given size.
    pub fn header(width: u32, height: u32) -> (r: String)
        ensures
            r@ == spec_header(width, height),
    {
        proof {
            reveal_strlit("P3\n");
            reveal_strlit(" ");
            reveal_strlit("\n255\n");
        }
        let mut text: String = String::new();
        text.append("P3\n");
        push_decimal(&mut text, width);
        text.append(" ");
        push_decimal(&mut text, height);
        text.append("\n255\n");
        assert(text@ =~= spec_header(width, height));
        text
    }
}

/// Each vector of the camera's basis has length `1` within four raw units,
/// unless it has come to nothing: `w` where the camera stands on what it looks
/// at, `u` where up runs along the view, and `v` with either.
pub proof fn lemma_basis_has_unit_length(camera: Camera)
    ensures
        camera.spec_w().spec_unit_or_zero(),
        camera.spec_u().spec_unit_or_zero(),
        camera.spec_v().spec_unit_or_zero(),
        camera.lookfrom.spec_sub(camera.lookat).spec_mag().raw > 0 ==> SCALE - 4
            <= camera.spec_w().spec_mag().raw <= SCALE + 4,
        camera.vup.spec_cross(camera.spec_w()).spec_mag().raw > 0 ==> SCALE - 4
            <= camera.spec_u().spec_mag().raw <= SCALE + 4,
        camera.spec_w().spec_cross(camera.spec_u()).spec_mag().raw > 0 ==> SCALE - 4
            <= camera.spec_v().spec_mag().raw <= SCALE + 4,
        camera.spec_initialize().w == camera.spec_w(),
        camera.spec_initialize().u == camera.spec_u(),
        camera.spec_initialize().v == camera.spec_v(),
{
    lemma_normalize_unit_or_zero(camera.lookfrom.spec_sub(camera.lookat));
    lemma_normalize_unit_or_zero(camera.vup.spec_cross(camera.spec_w()));
    lemma_normalize_unit_or_zero(camera.spec_w().spec_cross(camera.spec_u()));
    lemma_length_zero(camera.lookfrom.spec_sub(camera.lookat));
    lemma_length_zero(camera.vup.spec_cross(camera.spec_w()));
    lemma_length_zero(camera.spec_w().spec_cross(camera.spec_u()));
    lemma_length_zero(camera.spec_w());
    lemma_length_zero(camera.spec_u());
    lemma_length_zero(camera.spec_v());
}

/// The vectors of the camera's basis stand across one another within thirty
/// raw units, which is less than `1e-8`, where up is of moderate size and
/// lies at least a quarter across the view, so that the cross product of up
/// and the view has a component of `1/4` or more.
pub proof fn lemma_basis_is_orthogonal(camera: Camera)
    requires
        camera.vup.spec_largest() <= MODERATE_RAW,
        STEADY_RAW <= camera.vup.spec_cross(camera.spec_w()).spec_largest(),
    ensures
        -30 <= camera.spec_u().spec_dot(camera.spec_w()).raw <= 30,
        -30 <= camera.spec_v().spec_dot(camera.spec_w()).raw <= 30,
        -30 <= camera.spec_v().spec_dot(camera.spec_u()).raw <= 30,
        SCALE - 4 <= camera.spec_u().spec_mag().raw <= SCALE + 4,
        SCALE - 4 <= camera.spec_v().spec_mag().raw <= SCALE + 4,
        SCALE - 4 <= camera.spec_w().spec_mag().raw <= SCALE + 4,
{
    let w = camera.spec_w();
    let u = camera.spec_u();
    let across = camera.vup.spec_cross(w);
    let view = camera.lookfrom.spec_sub(camera.lookat);
    lemma_normalize_unit_or_zero(view);
    lemma_normalize_unit_or_zero(across);
    lemma_length_zero(view);
    lemma_length_zero(across);
    lemma_length_zero(w);
    lemma_largest_bounds(across);
    assert(w.spec_largest() <= SCALE);
    assert(u.spec_largest() <= SCALE);
    // The view is not zero, or its cross product with up would be.
    if view.spec_largest() == 0 {
        lemma_mul_zero(camera.vup.x);
        lemma_mul_zero(camera.vup.y);
        lemma_mul_zero(camera.vup.z);
        assert(across == Vec3::<Scalar>::spec_zero());
    }
    lemma_normalize_has_unit_length(view);
    lemma_normalize_has_unit_length(across);
    lemma_cross_across_second(camera.vup, w);
    lemma_normalize_keeps_across(across, w);
    lemma_cross_of_unit_pair_is_steady(w, u);
    lemma_cross_across_first(w, u);
    lemma_cross_across_second(w, u);
    lemma_normalize_keeps_across(w.spec_cross(u), w);
    lemma_normalize_keeps_across(w.spec_cross(u), u);
    lemma_length_zero(w.spec_cross(u));
    lemma_largest_bounds(w.spec_cross(u));
    lemma_normalize_has_unit_length(w.spec_cross(u));
}

/// With the default field of view of a right angle, the viewport at distance
/// `1` is half as high as `1` within two raw units.
pub proof fn lemma_default_half_height()
    ensures
        SCALE - 2 <= Camera::spec_new().spec_half_height().raw <= SCALE,
{
    lemma_tangent_of_half_right_angle();
}

/// A camera without a defocus angle is a pinhole: its lens has no extent.
pub proof fn lemma_pinhole_has_no_lens(camera: Camera)
    requires
        camera.defocus_angle.raw == 0,
    ensures
        camera.spec_defocus_radius().raw == 0,
        camera.spec_initialize().defocus_disk_u == Vec3::<Scalar>::spec_zero(),
        camera.spec_initialize().defocus_disk_v == Vec3::<Scalar>::spec_zero(),
{
    let zero = Scalar::spec_zero();
    lemma_zero_div(Scalar::spec_from_int(2));
    lemma_mul_zero(Scalar { raw: PI_RAW });
    lemma_zero_div(Scalar::spec_from_int(180));
    assert(spec_degrees_to_radians(zero) == zero);
    lemma_trigonometry_at_zero();
    lemma_mul_zero(camera.focus_dist);
    assert(camera.spec_defocus_radius() == zero);
    lemma_mul_zero(camera.spec_u().x);
    lemma_mul_zero(camera.spec_u().y);
    lemma_mul_zero(camera.spec_u().z);
    lemma_mul_zero(camera.spec_v().x);
    lemma_mul_zero(camera.spec_v().y);
    lemma_mul_zero(camera.spec_v().z);
}

/// The viewport depends on the settings alone: deriving it twice gives what
/// deriving it once gives, and leaves the settings as they were.
pub proof fn lemma_initialize_idempotent(camera: Camera)
    ensures
        camera.spec_initialize().spec_initialized(),
        camera.spec_initialize().image_height >= 1,
        camera.spec_initialize().image_width == camera.image_width,
        camera.spec_initialize().samples_per_pixel == camera.samples_per_pixel,
        camera.spec_initialize().max_depth == camera.max_depth,
{
    lemma_trunc_range(
        Scalar::spec_from_int(camera.image_width as int).spec_div(camera.aspect_ratio),
    );
}

} // verus!
