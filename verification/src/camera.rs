//! The camera: where rays start, what they bring back, and the picture that
//! they add up to.
use crate::color::Color;
use crate::fixed::{Fixed, LIMIT, SCALE};
use crate::hittable::Hittable;
use crate::image::{Image, Pixel};
use crate::interval::Interval;
use crate::material::ScatterDraw;
use crate::ray::Ray;
use crate::rng::random_fraction;
use crate::vec3::{Point3, Vec3};
use std::ops::Neg;
use vstd::prelude::*;

verus! {

/// Millionths in the least ray parameter at which a surface is looked for, so
/// that a ray does not meet the surface that it starts on.
pub const SHADOW_GAP_COUNT: i64 = 1_000;

/// What the camera works out from its settings before it renders.
#[derive(Clone, Copy, Debug, PartialEq, Eq, Structural)]
pub struct Frame {
    /// Rows of the picture.
    pub image_height: i32,
    /// Where the rays start, but for the blur of the lens.
    pub center: Point3,
    /// Middle of the pixel in the top left corner.
    pub pixel00_loc: Point3,
    /// From one pixel to the next on its right.
    pub pixel_delta_u: Vec3,
    /// From one pixel to the next below.
    pub pixel_delta_v: Vec3,
    /// Unit vector to the right of the camera.
    pub u: Vec3,
    /// Unit vector upward of the camera.
    pub v: Vec3,
    /// Unit vector against the view.
    pub w: Vec3,
    /// Horizontal radius of the lens.
    pub defocus_disk_u: Vec3,
    /// Vertical radius of the lens.
    pub defocus_disk_v: Vec3,
}

/// The chance that one ray of the camera takes.
#[derive(Clone, Copy, Debug, PartialEq, Eq, Structural)]
pub struct RayDraw {
    /// Where in the pixel the ray aims, from its left (zero) to its right (one).
    pub jitter_x: Fixed,
    /// Where in the pixel the ray aims, from its top (zero) to its bottom (one).
    pub jitter_y: Fixed,
    /// Where on the lens the ray starts: a point of the unit disk.
    pub lens: Vec3,
}

impl RayDraw {
    /// The draw is one that the generator can make.
    pub open spec fn is_valid(self) -> bool {
        &&& 0 <= self.jitter_x@ < SCALE
        &&& 0 <= self.jitter_y@ < SCALE
        &&& self.lens.in_unit_sphere_spec()
        &&& self.lens.within(-SCALE, SCALE as int)
        &&& self.lens.z@ == 0
    }
}

/// Every draw of `draws` is one that the generator can make.
pub open spec fn all_valid(draws: Seq<ScatterDraw>) -> bool {
    forall|k: int| 0 <= k < draws.len() ==> (#[trigger] draws[k]).is_valid()
}

/// Black.
pub open spec fn black_spec() -> Color {
    Vec3 { x: Fixed::of(0), y: Fixed::of(0), z: Fixed::of(0) }
}

/// Colour of the sky along `ray`: from white at the bottom to blue at the top,
/// by the height of the unit direction.
pub open spec fn sky_spec(ray: Ray) -> Color {
    let one = Fixed::of(SCALE as int);
    let a = Fixed::of(SCALE / 2).mul_spec(ray.direction.unit_spec().y.add_spec(one));
    let white = Vec3 { x: one, y: one, z: one };
    let blue = Vec3 { x: Fixed::of(500_000), y: Fixed::of(700_000), z: one };
    white.scale_spec(one.sub_spec(a)).add_spec(blue.scale_spec(a))
}

/// The part of a ray on which surfaces are looked for: from the shadow gap on.
pub open spec fn sight_spec() -> Interval {
    Interval { min: Fixed::of(SHADOW_GAP_COUNT as int), max: Fixed::of(LIMIT as int) }
}

/// The light that comes back along `ray` from `world`, followed over `depth`
/// bounces at most, where bounce `k` takes the chance `draws[k]`:
/// nothing once the bounces are used up; the sky where the ray meets nothing;
/// nothing where the surface swallows it; else the light along the scattered ray,
/// dimmed by the surface.
pub open spec fn radiance_spec<H: Hittable>(world: &H, ray: Ray, depth: int, draws: Seq<ScatterDraw>) -> Color
    decreases depth,
{
    if depth <= 0 {
        black_spec()
    } else {
        match world.hit_spec(ray, sight_spec()) {
            Some(rec) => match rec.material.scatter_spec(ray, rec, draws[0]) {
                Some((scattered, attenuation)) => attenuation.mul_spec(
                    radiance_spec(world, scattered, depth - 1, draws.skip(1)),
                ),
                None => black_spec(),
            },
            None => sky_spec(ray),
        }
    }
}

/// Sum of `colors`, added up from the first on.
pub open spec fn sum_spec(colors: Seq<Color>) -> Color
    decreases colors.len(),
{
    if colors.len() == 0 {
        black_spec()
    } else {
        sum_spec(colors.drop_last()).add_spec(colors.last())
    }
}

impl Frame {
    /// Middle of the pixel in column `i` and row `j`.
    pub open spec fn pixel_center_spec(self, i: i32, j: i32) -> Point3 {
        self.pixel00_loc.add_spec(self.pixel_delta_v.scale_spec(Fixed::of(j * SCALE))).add_spec(
            self.pixel_delta_u.scale_spec(Fixed::of(i * SCALE)),
        )
    }

    /// From the middle of a pixel to the point of it that the jitter picks.
    pub open spec fn pixel_sample_square_spec(self, jitter_x: Fixed, jitter_y: Fixed) -> Vec3 {
        let px = Fixed::of(-(SCALE / 2)).add_spec(jitter_x);
        let py = Fixed::of(-(SCALE / 2)).add_spec(jitter_y);
        self.pixel_delta_u.scale_spec(px).add_spec(self.pixel_delta_v.scale_spec(py))
    }

    /// The point of the lens that `lens` picks.
    pub open spec fn defocus_disk_sample_spec(self, lens: Vec3) -> Point3 {
        self.center.add_spec(self.defocus_disk_u.scale_spec(lens.x)).add_spec(self.defocus_disk_v.scale_spec(lens.y))
    }

    /// The ray through the pixel in column `i` and row `j` that `draw` picks: it
    /// starts at the middle of the camera, or on the lens where the camera has
    /// one (`defocus_angle` above zero), and aims at the jittered point of the
    /// pixel.
    pub open spec fn ray_spec(self, defocus_angle: Fixed, i: i32, j: i32, draw: RayDraw) -> Ray {
        let pixel_sample = self.pixel_center_spec(i, j).add_spec(
            self.pixel_sample_square_spec(draw.jitter_x, draw.jitter_y),
        );
        let origin = if defocus_angle@ <= 0 {
            self.center
        } else {
            self.defocus_disk_sample_spec(draw.lens)
        };
        Ray { origin, direction: pixel_sample.sub_spec(origin) }
    }
}

/// A camera: its settings, and what it works out from them when it renders.
#[derive(Debug)]
pub struct Camera {
    /// Rays sent through each pixel: one at least.
    pub samples_per_pixel: i16,
    /// Bounces after which a ray is given up.
    pub max_depth: i8,
    /// Vertical angle of view, in degrees.
    pub fov: Fixed,
    /// Columns of the picture.
    pub image_width: i32,
    /// Width of the picture over its height.
    pub aspect_ratio: Fixed,
    /// Where the camera stands.
    pub lookfrom: Point3,
    /// What the camera looks at.
    pub lookat: Point3,
    /// Which way is up.
    pub up: Vec3,
    /// Angle of the cone from a point in focus to the lens, in degrees; zero for
    /// a camera without a lens.
    pub defocus_angle: Fixed,
    /// Distance from the camera to what is in focus.
    pub focus_dist: Fixed,
    /// Rows of the picture, as last worked out.
    pub image_height: i32,
    /// Where the rays start, as last worked out.
    pub center: Point3,
    /// Middle of the first pixel, as last worked out.
    pub pixel00_loc: Point3,
    /// Step to the next column, as last worked out.
    pub pixel_delta_u: Vec3,
    /// Step to the next row, as last worked out.
    pub pixel_delta_v: Vec3,
    /// Unit vector to the right, as last worked out.
    pub u: Vec3,
    /// Unit vector upward, as last worked out.
    pub v: Vec3,
    /// Unit vector against the view, as last worked out.
    pub w: Vec3,
    /// Horizontal radius of the lens, as last worked out.
    pub defocus_disk_u: Vec3,
    /// Vertical radius of the lens, as last worked out.
    pub defocus_disk_v: Vec3,
}

impl Camera {
    /// What the camera has worked out.
    pub open spec fn frame(self) -> Frame {
        Frame {
            image_height: self.image_height,
            center: self.center,
            pixel00_loc: self.pixel00_loc,
            pixel_delta_u: self.pixel_delta_u,
            pixel_delta_v: self.pixel_delta_v,
            u: self.u,
            v: self.v,
            w: self.w,
            defocus_disk_u: self.defocus_disk_u,
            defocus_disk_v: self.defocus_disk_v,
        }
    }

    /// The two cameras have the same settings.
    pub open spec fn same_settings(self, other: Camera) -> bool {
        &&& self.samples_per_pixel == other.samples_per_pixel
        &&& self.max_depth == other.max_depth
        &&& self.fov == other.fov
        &&& self.image_width == other.image_width
        &&& self.aspect_ratio == other.aspect_ratio
        &&& self.lookfrom == other.lookfrom
        &&& self.lookat == other.lookat
        &&& self.up == other.up
        &&& self.defocus_angle == other.defocus_angle
        &&& self.focus_dist == other.focus_dist
    }

    /// The settings are such as a picture can be made with: one ray a pixel at
    /// least, no bounce count below zero, an angle of view between nothing and half
    /// a turn, one column at least, an aspect ratio and a distance of focus above
    /// zero, and no defocus angle below zero.
    pub open spec fn settings_valid_spec(self) -> bool {
        &&& self.samples_per_pixel >= 1
        &&& self.max_depth >= 0
        &&& 0 < self.fov@ < 180 * SCALE
        &&& self.image_width >= 1
        &&& self.aspect_ratio@ > 0
        &&& self.defocus_angle@ >= 0
        &&& self.focus_dist@ > 0
    }

    /// Rows of the picture: the width over the aspect ratio, rounded down, one
    /// at least.
    pub open spec fn image_height_spec(self) -> i32 {
        let rows = Fixed::of(self.image_width * SCALE).div_spec(self.aspect_ratio).max_spec(
            Fixed::of(SCALE as int),
        ).trunc_spec();
        if rows > i32::MAX {
            i32::MAX
        } else {
            rows as i32
        }
    }

    /// Height of the window that the camera looks through, at the distance of
    /// focus: `2 tan(fov / 2) focus_dist`.
    pub open spec fn viewport_height_spec(self) -> Fixed {
        let theta = self.fov.to_radians_spec();
        let h = theta.div_spec(Fixed::of(2 * SCALE)).tan_spec();
        Fixed::of(2 * SCALE).mul_spec(h).mul_spec(self.focus_dist)
    }

    /// Width of that window: its height times columns over rows.
    pub open spec fn viewport_width_spec(self) -> Fixed {
        self.viewport_height_spec().mul_spec(
            Fixed::of(self.image_width * SCALE).div_spec(Fixed::of(self.image_height_spec() * SCALE)),
        )
    }

    /// Radius of the lens: `focus_dist tan(defocus_angle / 2)`.
    pub open spec fn defocus_radius_spec(self) -> Fixed {
        self.focus_dist.mul_spec(self.defocus_angle.div_spec(Fixed::of(2 * SCALE)).to_radians_spec().tan_spec())
    }

    /// What the camera works out from its settings: the rows of the picture, the
    /// three unit vectors of its own frame, the steps from pixel to pixel, the
    /// middle of the first pixel, and the radii of the lens.
    pub open spec fn derive_spec(self) -> Frame {
        let two = Fixed::of(2 * SCALE);
        let w = self.lookfrom.sub_spec(self.lookat).unit_spec();
        let u = self.up.cross_spec(w).unit_spec();
        let v = w.cross_spec(u);
        let viewport_u = u.scale_spec(self.viewport_width_spec());
        let viewport_v = v.neg_spec().scale_spec(self.viewport_height_spec());
        let pixel_delta_u = viewport_u.div_spec(Fixed::of(self.image_width * SCALE));
        let pixel_delta_v = viewport_v.div_spec(Fixed::of(self.image_height_spec() * SCALE));
        let viewport_upper_left = self.lookfrom.sub_spec(viewport_u.div_spec(two)).sub_spec(
            viewport_v.div_spec(two),
        ).sub_spec(w.scale_spec(self.focus_dist));
        Frame {
            image_height: self.image_height_spec(),
            center: self.lookfrom,
            pixel00_loc: viewport_upper_left.add_spec(
                pixel_delta_u.add_spec(pixel_delta_v).scale_spec(Fixed::of(SCALE / 2)),
            ),
            pixel_delta_u,
            pixel_delta_v,
            u,
            v,
            w,
            defocus_disk_u: u.scale_spec(self.defocus_radius_spec()),
            defocus_disk_v: v.scale_spec(self.defocus_radius_spec()),
        }
    }

    /// `color` is one estimate of the light through the pixel in column `i` and
    /// row `j`: the light along one of the rays that the camera can send through
    /// it, followed with chances that the generator can give.
    pub open spec fn is_sample<H: Hittable>(self, world: &H, i: i32, j: i32, color: Color) -> bool {
        exists|draw: RayDraw, draws: Seq<ScatterDraw>|
            #![trigger radiance_spec(world, self.frame().ray_spec(self.defocus_angle, i, j, draw), self.max_depth as int, draws)]
            draw.is_valid() && all_valid(draws) && color == radiance_spec(
                world,
                self.frame().ray_spec(self.defocus_angle, i, j, draw),
                self.max_depth as int,
                draws,
            )
    }

    /// `samples` are estimates of the light through the pixel in column `i` and
    /// row `j`, one for each ray that the settings ask for.
    pub open spec fn are_samples<H: Hittable>(self, world: &H, i: i32, j: i32, samples: Seq<Color>) -> bool {
        &&& samples.len() == self.samples_per_pixel
        &&& forall|k: int| 0 <= k < samples.len() ==> self.is_sample(world, i, j, #[trigger] samples[k])
    }

    /// `pixel` is what the camera can give for column `i` and row `j`: the pixel
    /// of the sum of its samples.
    pub open spec fn is_pixel_estimate<H: Hittable>(self, world: &H, i: i32, j: i32, pixel: Pixel) -> bool {
        exists|samples: Seq<Color>| #[trigger]
            self.are_samples(world, i, j, samples) && pixel == sum_spec(samples).to_pixel_spec(
                self.samples_per_pixel,
            )
    }

    /// A camera at `(0, 0, -1)` that looks at the origin, a quarter turn wide,
    /// without a lens, for a square picture of a hundred columns, ten rays a pixel
    /// and ten bounces a ray.
    pub fn new() -> (r: Camera)
        ensures
            r.samples_per_pixel == 10,
            r.max_depth == 10,
            r.fov == Fixed::of(90 * SCALE),
            r.image_width == 100,
            r.aspect_ratio == Fixed::of(SCALE as int),
            r.lookfrom == (Vec3 { x: Fixed::of(0), y: Fixed::of(0), z: Fixed::of(-SCALE) }),
            r.lookat == (Vec3 { x: Fixed::of(0), y: Fixed::of(0), z: Fixed::of(0) }),
            r.up == (Vec3 { x: Fixed::of(0), y: Fixed::of(SCALE as int), z: Fixed::of(0) }),
            r.defocus_angle == Fixed::of(0),
            r.focus_dist == Fixed::of(10 * SCALE),
            r.frame() == (Frame {
                image_height: 100,
                center: Vec3 { x: Fixed::of(0), y: Fixed::of(0), z: Fixed::of(0) },
                pixel00_loc: Vec3 { x: Fixed::of(-SCALE), y: Fixed::of(SCALE as int), z: Fixed::of(-SCALE) },
                pixel_delta_u: Vec3 { x: Fixed::of(20_000), y: Fixed::of(0), z: Fixed::of(0) },
                pixel_delta_v: Vec3 { x: Fixed::of(0), y: Fixed::of(-20_000), z: Fixed::of(0) },
                u: Vec3 { x: Fixed::of(0), y: Fixed::of(0), z: Fixed::of(0) },
                v: Vec3 { x: Fixed::of(0), y: Fixed::of(0), z: Fixed::of(0) },
                w: Vec3 { x: Fixed::of(0), y: Fixed::of(0), z: Fixed::of(0) },
                defocus_disk_u: Vec3 { x: Fixed::of(0), y: Fixed::of(0), z: Fixed::of(0) },
                defocus_disk_v: Vec3 { x: Fixed::of(0), y: Fixed::of(0), z: Fixed::of(0) },
            }),
    {
        let zero = Fixed::zero();
        let one = Fixed::one();
        let minus_one = Fixed::from_int(-1);
        let nothing = Vec3::new(zero, zero, zero);
        Camera {
            samples_per_pixel: 10,
            max_depth: 10,
            fov: Fixed::from_int(90),
            image_width: 100,
            aspect_ratio: one,
            lookfrom: Point3::new(zero, zero, minus_one),
            lookat: Point3::new(zero, zero, zero),
            up: Vec3::new(zero, one, zero),
            defocus_angle: zero,
            focus_dist: Fixed::from_int(10),
            image_height: 100,
            center: nothing,
            pixel00_loc: Point3::new(minus_one, one, minus_one),
            pixel_delta_u: Vec3::new(Fixed::from_raw(20_000), zero, zero),
            pixel_delta_v: Vec3::new(zero, Fixed::from_raw(-20_000), zero),
            u: nothing,
            v: nothing,
            w: nothing,
            defocus_disk_u: nothing,
            defocus_disk_v: nothing,
        }
    }

    /// Whether the settings are such as a picture can be made with.
    pub fn settings_valid(&self) -> (r: bool)
        ensures
            r == self.settings_valid_spec(),
    {
        self.samples_per_pixel >= 1 && self.max_depth >= 0 && self.fov.gt(Fixed::zero()) && self.fov.lt(
            Fixed::from_int(180),
        ) && self.image_width >= 1 && self.aspect_ratio.gt(Fixed::zero()) && self.defocus_angle.ge(Fixed::zero())
            && self.focus_dist.gt(Fixed::zero())
    }

    /// Rows of the picture, as last worked out.
    pub fn image_height(&self) -> (r: i32)
        ensures
            r == self.frame().image_height,
    {
        self.image_height
    }

    /// The picture of `world`: for each pixel, row by row from the top and from
    /// the left in each row, the light along `samples_per_pixel` rays is added up
    /// and turned into a pixel. The camera first works out its frame from its
    /// settings.
    pub fn render<H: Hittable>(&mut self, world: &H) -> (image: Image)
        requires
            old(self).samples_per_pixel >= 1,
        ensures
            final(self).same_settings(*old(self)),
            final(self).frame() == old(self).derive_spec(),
            image.width == old(self).image_width,
            image.height == old(self).image_height_spec(),
            image.width >= 0 ==> image.pixels@.len() == image.width * image.height,
            image.width < 0 ==> image.pixels@.len() == 0,
            forall|k: int|
                0 <= k < image.pixels@.len() ==> final(self).is_pixel_estimate(
                    world,
                    (k % (image.width as int)) as i32,
                    (k / (image.width as int)) as i32,
                    #[trigger] image.pixels@[k],
                ),
    {
        self.initialise();
        let width = self.image_width;
        let height = self.image_height;
        let mut pixels: Vec<Pixel> = Vec::new();
        let mut j: i32 = 0;
        while j < height
            invariant
                self.samples_per_pixel >= 1,
                width == self.image_width,
                height == self.image_height,
                height >= 1,
                0 <= j <= height,
                width >= 0 ==> pixels@.len() == j * width,
                width < 0 ==> pixels@.len() == 0,
                forall|k: int|
                    0 <= k < pixels@.len() ==> self.is_pixel_estimate(
                        world,
                        (k % (width as int)) as i32,
                        (k / (width as int)) as i32,
                        #[trigger] pixels@[k],
                    ),
            decreases height - j,
        {
            let mut i: i32 = 0;
            while i < width
                invariant
                    self.samples_per_pixel >= 1,
                    width == self.image_width,
                    0 <= j < height,
                    0 <= i,
                    width >= 0 ==> i <= width,
                    width >= 0 ==> pixels@.len() == j * width + i,
                    width < 0 ==> pixels@.len() == 0,
                    forall|k: int|
                        0 <= k < pixels@.len() ==> self.is_pixel_estimate(
                            world,
                            (k % (width as int)) as i32,
                            (k / (width as int)) as i32,
                            #[trigger] pixels@[k],
                        ),
                decreases width - i,
            {
                let pixel = self.pixel(i, j, world);
                proof {
                    let k = j * width + i;
                    vstd::arithmetic::div_mod::lemma_fundamental_div_mod_converse(k, width as int, j as int, i as int);
                }
                pixels.push(pixel);
                i = i + 1;
            }
            proof {
                assert(j * width + width == (j + 1) * width) by (nonlinear_arith);
            }
            j = j + 1;
        }
        Image { width, height, pixels }
    }

    /// The pixel in column `i` and row `j` of the picture of `world`, from
    /// `samples_per_pixel` rays of the camera's own drawing.
    pub fn pixel<H: Hittable>(&self, i: i32, j: i32, world: &H) -> (pixel: Pixel)
        requires
            self.samples_per_pixel >= 1,
        ensures
            self.is_pixel_estimate(world, i, j, pixel),
    {
        let mut pixel_color = Color::new(Fixed::zero(), Fixed::zero(), Fixed::zero());
        let ghost mut samples: Seq<Color> = Seq::empty();
        let mut n: i16 = 0;
        while n < self.samples_per_pixel
            invariant
                0 <= n <= self.samples_per_pixel,
                samples.len() == n,
                pixel_color == sum_spec(samples),
                forall|k: int| 0 <= k < samples.len() ==> self.is_sample(world, i, j, #[trigger] samples[k]),
            decreases self.samples_per_pixel - n,
        {
            let color = self.sample(i, j, world);
            proof {
                let next = samples.push(color);
                assert(next.drop_last() == samples);
                assert(next.last() == color);
                samples = next;
            }
            pixel_color = pixel_color + color;
            n = n + 1;
        }
        let pixel = pixel_color.to_pixel(self.samples_per_pixel);
        proof {
            assert(self.are_samples(world, i, j, samples));
        }
        pixel
    }

    /// One estimate of the light through the pixel in column `i` and row `j`:
    /// the light along a ray of the camera's own drawing.
    pub fn sample<H: Hittable>(&self, i: i32, j: i32, world: &H) -> (color: Color)
        ensures
            self.is_sample(world, i, j, color),
    {
        let ray = self.get_ray(i, j);
        let color = Camera::ray_color(&ray, self.max_depth, world);
        proof {
            let draw = choose|draw: RayDraw| #[trigger]
                draw.is_valid() && ray == self.frame().ray_spec(self.defocus_angle, i, j, draw);
            let draws = choose|draws: Seq<ScatterDraw>|
                all_valid(draws) && color == #[trigger] radiance_spec(world, ray, self.max_depth as int, draws);
            assert(draw.is_valid() && all_valid(draws) && color == radiance_spec(
                world,
                self.frame().ray_spec(self.defocus_angle, i, j, draw),
                self.max_depth as int,
                draws,
            ));
        }
        color
    }

    /// Works out the frame from the settings.
    pub fn initialise(&mut self)
        ensures
            final(self).same_settings(*old(self)),
            final(self).frame() == old(self).derive_spec(),
            final(self).frame().image_height >= 1,
    {
        let width = Fixed::from_int(self.image_width as i64);
        let rows = (width / self.aspect_ratio).max(Fixed::one()).trunc();
        proof {
            crate::fixed::lemma_tdiv_bounds(
                width.div_spec(self.aspect_ratio).max_spec(Fixed::of(SCALE as int))@,
                SCALE as int,
            );
        }
        self.image_height = if rows > i32::MAX as i64 {
            i32::MAX
        } else {
            rows as i32
        };
        let height = Fixed::from_int(self.image_height as i64);
        let two = Fixed::from_int(2);
        let theta = self.fov.to_radians();
        let h = (theta / two).tan();
        let viewport_height = two * h * self.focus_dist;
        let viewport_width = viewport_height * (width / height);
        self.center = self.lookfrom;
        self.w = (self.lookfrom - self.lookat).unit();
        self.u = self.up.cross(self.w).unit();
        self.v = self.w.cross(self.u);
        let viewport_u = viewport_width * self.u;
        let viewport_v = viewport_height * self.v.neg();
        self.pixel_delta_u = viewport_u / width;
        self.pixel_delta_v = viewport_v / height;
        let viewport_upper_left = self.center - (viewport_u / two) - (viewport_v / two) - (self.focus_dist * self.w);
        self.pixel00_loc = viewport_upper_left + Fixed::from_raw(SCALE / 2) * (self.pixel_delta_u
            + self.pixel_delta_v);
        let defocus_radius = self.focus_dist * (self.defocus_angle / two).to_radians().tan();
        self.defocus_disk_u = self.u * defocus_radius;
        self.defocus_disk_v = self.v * defocus_radius;
    }

    /// The light that comes back along `ray` from `world`, followed over `depth`
    /// bounces at most, where bounce `k` takes the chance `draws[k]`.
    pub fn ray_color_with<H: Hittable>(ray: &Ray, depth: i8, world: &H, draws: &Vec<ScatterDraw>, first: usize) -> (r:
        Color)
        requires
            first <= draws@.len(),
            depth > 0 ==> draws@.len() - first >= depth,
        ensures
            r == radiance_spec(world, *ray, depth as int, draws@.skip(first as int)),
        decreases depth,
    {
        if depth <= 0 {
            return Color::new(Fixed::zero(), Fixed::zero(), Fixed::zero());
        }
        let sight = Interval { min: Fixed::from_raw(SHADOW_GAP_COUNT), max: Fixed::max_value() };
        if let Some(record) = world.hit(ray, &sight) {
            assert(first < draws.len());
            proof {
                assert(draws@.skip(first as int)[0] == draws@[first as int]);
                assert(draws@.skip(first as int).skip(1) =~= draws@.skip(first as int + 1));
            }
            if let Some((scatter, attenuation)) = record.material.scatter_with(ray, &record, &draws[first]) {
                return attenuation * Camera::ray_color_with(&scatter, depth - 1, world, draws, first + 1);
            }
            return Color::new(Fixed::zero(), Fixed::zero(), Fixed::zero());
        }
        Camera::sky(ray)
    }

    /// Colour of the sky along `ray`.
    pub fn sky(ray: &Ray) -> (r: Color)
        ensures
            r == sky_spec(*ray),
    {
        let one = Fixed::one();
        let unit_direction = ray.direction().unit();
        let a = Fixed::from_raw(SCALE / 2) * (unit_direction.y() + one);
        (one - a) * Color::new(one, one, one) + a * Color::new(Fixed::from_raw(500_000), Fixed::from_raw(700_000), one)
    }

    /// The light that comes back along `ray` from `world`, followed over `depth`
    /// bounces at most, each with a chance of the surface's own drawing. With no
    /// bounce left the light is black.
    pub fn ray_color<H: Hittable>(ray: &Ray, depth: i8, world: &H) -> (r: Color)
        ensures
            depth <= 0 ==> r == black_spec(),
            exists|draws: Seq<ScatterDraw>|
                all_valid(draws) && r == #[trigger] radiance_spec(world, *ray, depth as int, draws),
    {
        let traced = Camera::trace(ray, depth, world);
        traced.0
    }

    /// The light along `ray`, and the chances that its bounces took.
    fn trace<H: Hittable>(ray: &Ray, depth: i8, world: &H) -> (r: (Color, Ghost<Seq<ScatterDraw>>))
        ensures
            all_valid(r.1@),
            r.0 == radiance_spec(world, *ray, depth as int, r.1@),
            depth <= 0 ==> r.0 == black_spec(),
        decreases depth,
    {
        let black = Color::new(Fixed::zero(), Fixed::zero(), Fixed::zero());
        if depth <= 0 {
            return (black, Ghost(Seq::empty()));
        }
        let sight = Interval { min: Fixed::from_raw(SHADOW_GAP_COUNT), max: Fixed::max_value() };
        if let Some(record) = world.hit(ray, &sight) {
            let scattered = record.material.scatter(ray, &record);
            let ghost draw = choose|draw: ScatterDraw| #[trigger]
                draw.is_valid() && scattered == record.material.scatter_spec(*ray, record, draw);
            if let Some((scatter, attenuation)) = scattered {
                let rest = Camera::trace(&scatter, depth - 1, world);
                let ghost draws = seq![draw] + rest.1@;
                proof {
                    assert(draws[0] == draw);
                    assert(draws.skip(1) =~= rest.1@);
                    assert(all_valid(draws));
                }
                return (attenuation * rest.0, Ghost(draws));
            }
            let ghost draws = seq![draw];
            proof {
                assert(draws[0] == draw);
            }
            return (black, Ghost(draws));
        }
        (Camera::sky(ray), Ghost(Seq::empty()))
    }

    /// The ray through the pixel in column `i` and row `j` that `draw` picks.
    pub fn get_ray_with(&self, i: i32, j: i32, draw: &RayDraw) -> (r: Ray)
        ensures
            r == self.frame().ray_spec(self.defocus_angle, i, j, *draw),
    {
        let pixel_center = self.pixel00_loc + (self.pixel_delta_v * Fixed::from_int(j as i64)) + (self.pixel_delta_u
            * Fixed::from_int(i as i64));
        let pixel_sample = pixel_center + self.pixel_sample_square_with(draw.jitter_x, draw.jitter_y);
        let ray_origin = if self.defocus_angle.le(Fixed::zero()) {
            self.center
        } else {
            self.defocus_disk_sample_with(draw.lens)
        };
        let ray_direction = pixel_sample - ray_origin;
        Ray::new(ray_origin, ray_direction)
    }

    /// A ray through the pixel in column `i` and row `j`, aimed and started by
    /// chance. A camera without a lens draws no point of the lens.
    pub fn get_ray(&self, i: i32, j: i32) -> (r: Ray)
        ensures
            exists|draw: RayDraw| #[trigger] draw.is_valid() && r == self.frame().ray_spec(self.defocus_angle, i, j, draw),
    {
        let jitter_x = random_fraction();
        let jitter_y = random_fraction();
        let lens = if self.defocus_angle.le(Fixed::zero()) {
            proof {
                crate::vec3::lemma_zero_in_unit_sphere();
            }
            Vec3::new(Fixed::zero(), Fixed::zero(), Fixed::zero())
        } else {
            Vec3::random_in_unit_disk()
        };
        let draw = RayDraw { jitter_x, jitter_y, lens };
        let r = self.get_ray_with(i, j, &draw);
        assert(draw.is_valid() && r == self.frame().ray_spec(self.defocus_angle, i, j, draw));
        r
    }

    /// The point of the lens that `lens` picks.
    fn defocus_disk_sample_with(&self, lens: Vec3) -> (r: Point3)
        ensures
            r == self.frame().defocus_disk_sample_spec(lens),
    {
        self.center + (lens.x() * self.defocus_disk_u) + (lens.y() * self.defocus_disk_v)
    }

    /// From the middle of a pixel to the point of it that the jitter picks.
    fn pixel_sample_square_with(&self, jitter_x: Fixed, jitter_y: Fixed) -> (r: Vec3)
        ensures
            r == self.frame().pixel_sample_square_spec(jitter_x, jitter_y),
    {
        let px = Fixed::from_raw(-(SCALE / 2)) + jitter_x;
        let py = Fixed::from_raw(-(SCALE / 2)) + jitter_y;
        px * self.pixel_delta_u + py * self.pixel_delta_v
    }
}

} // verus!
