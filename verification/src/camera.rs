//! The camera: derived render geometry, ray generation and the pixel loop.

use crate::fixed::add_s;
use crate::fixed::div_s;
use crate::fixed::fp_add;
use crate::fixed::fp_div;
use crate::fixed::fp_mul;
use crate::fixed::fp_of_int;
use crate::fixed::fp_sqrt;
use crate::fixed::fp_sub;
use crate::fixed::fp_to_int;
use crate::fixed::mul_s;
use crate::fixed::of_int_s;
use crate::fixed::sqrt_s;
use crate::fixed::sub_s;
use crate::fixed::tdiv;
use crate::fixed::to_int_s;
use crate::fixed::FP_HALF;
use crate::fixed::FP_TWO;
use crate::fixed::LIM;
use crate::fixed::SCALE;
use crate::hittable::scene_wf;
use crate::hittable::HittableList;
use crate::ray::Ray3;
use crate::rng::RandomSource;
use crate::vector::in_unit_ball;
use crate::vector::vadd;
use crate::vector::vcross;
use crate::vector::vdivs;
use crate::vector::vlen;
use crate::vector::vneg;
use crate::vector::vnorm;
use crate::vector::vscale;
use crate::vector::vsub;
use crate::vector::Vector3;
use vstd::prelude::*;

verus! {

/// The fixed-point value of pi.
pub const FP_PI: i64 = 205887;

/// The fixed-point value of one hundred and eighty.
pub const FP_180: i64 = 11796480;

/// The fixed-point value just below one that tone mapping clamps to.
pub const FP_CLAMP_MAX: i64 = 65470;

/// The fixed-point value of two hundred and fifty-six.
pub const FP_256: i64 = 16777216;

/// The derived, immutable render geometry.
#[derive(Clone, Copy, Debug, Default, PartialEq, Eq, Structural)]
pub struct Camera {
    pub image_width: i32,
    pub image_height: i32,
    pub pixel_origin: Vector3,
    pub pixel_delta_u: Vector3,
    pub pixel_delta_v: Vector3,
    pub samples_per_pixel: i32,
    pub max_depth: i32,
    pub location: Vector3,
    pub defocus_disk_u: Vector3,
    pub defocus_disk_v: Vector3,
}

/// The user-facing framing parameters a camera is built from.
#[derive(Clone, Copy, Debug, PartialEq, Eq, Structural)]
pub struct CameraBuilder {
    pub image_width: i32,
    pub image_height: i32,
    pub samples_per_pixel: i32,
    pub max_depth: i32,
    pub vertical_fov: i64,
    pub relative_up: Vector3,
    pub position: Vector3,
    pub point_at: Vector3,
    pub focus_distance: i64,
    pub defocus_angle: i64,
}

pub open spec fn imax(a: int, b: int) -> int {
    if a < b {
        b
    } else {
        a
    }
}

pub open spec fn clamp_range_s(x: int, lo: int, hi: int) -> int {
    if x < lo {
        lo
    } else if x > hi {
        hi
    } else {
        x
    }
}

/// Degrees to radians.
pub open spec fn deg_to_rad_s(x: int) -> int {
    div_s(mul_s(x, FP_PI as int), FP_180 as int)
}

/// Degrees to radians.
pub fn deg_to_rad(x: i64) -> (r: i64)
    ensures
        r == deg_to_rad_s(x as int),
{
    fp_div(fp_mul(x, FP_PI), FP_180)
}

/// Truncated Maclaurin series of the sine, adequate up to a right angle.
pub open spec fn sin_poly_s(x: int) -> int {
    let x2 = mul_s(x, x);
    let x3 = mul_s(x2, x);
    let x5 = mul_s(x3, x2);
    let x7 = mul_s(x5, x2);
    sub_s(
        add_s(sub_s(x, div_s(x3, of_int_s(6))), div_s(x5, of_int_s(120))),
        div_s(x7, of_int_s(5040)),
    )
}

/// Truncated Maclaurin series of the cosine, adequate up to a right angle.
pub open spec fn cos_poly_s(x: int) -> int {
    let x2 = mul_s(x, x);
    let x4 = mul_s(x2, x2);
    let x6 = mul_s(x4, x2);
    sub_s(
        add_s(sub_s(SCALE as int, div_s(x2, of_int_s(2))), div_s(x4, of_int_s(24))),
        div_s(x6, of_int_s(720)),
    )
}

/// The tangent as the ratio of the series, saturated where the cosine
/// series is not positive.
pub open spec fn tan_fp_s(x: int) -> int {
    if cos_poly_s(x) <= 0 {
        LIM as int
    } else {
        div_s(sin_poly_s(x), cos_poly_s(x))
    }
}

fn sin_poly(x: i64) -> (r: i64)
    ensures
        r == sin_poly_s(x as int),
{
    let x2 = fp_mul(x, x);
    let x3 = fp_mul(x2, x);
    let x5 = fp_mul(x3, x2);
    let x7 = fp_mul(x5, x2);
    fp_sub(
        fp_add(fp_sub(x, fp_div(x3, fp_of_int(6))), fp_div(x5, fp_of_int(120))),
        fp_div(x7, fp_of_int(5040)),
    )
}

fn cos_poly(x: i64) -> (r: i64)
    ensures
        r == cos_poly_s(x as int),
{
    let x2 = fp_mul(x, x);
    let x4 = fp_mul(x2, x2);
    let x6 = fp_mul(x4, x2);
    fp_sub(
        fp_add(fp_sub(SCALE, fp_div(x2, fp_of_int(2))), fp_div(x4, fp_of_int(24))),
        fp_div(x6, fp_of_int(720)),
    )
}

/// The tangent of a fixed-point angle in radians.
pub fn tan_fp(x: i64) -> (r: i64)
    ensures
        r == tan_fp_s(x as int),
{
    let c = cos_poly(x);
    if c <= 0 {
        LIM
    } else {
        fp_div(sin_poly(x), c)
    }
}

/// The camera that `CameraBuilder::build` derives from its parameters.
pub open spec fn build_s(b: CameraBuilder) -> Camera {
    let image_width = imax(b.image_width as int, 1);
    let image_height = imax(b.image_height as int, 1);
    let samples_per_pixel = imax(b.samples_per_pixel as int, 1);
    let max_depth = imax(b.max_depth as int, 1);

    let theta = deg_to_rad_s(clamp_range_s(b.vertical_fov as int, 0, FP_180 as int));
    let h = tan_fp_s(tdiv(theta, 2));
    let viewport_height = mul_s(mul_s(FP_TWO as int, h), b.focus_distance as int);
    let viewport_width = div_s(
        mul_s(viewport_height, of_int_s(image_width)),
        of_int_s(image_height),
    );

    let w_basis = vnorm(vsub(b.position, b.point_at));
    let u_basis = vnorm(vcross(b.relative_up, w_basis));
    let v_basis = vcross(w_basis, u_basis);

    let viewport_u = vscale(u_basis, viewport_width);
    let viewport_v = vscale(vneg(v_basis), viewport_height);

    let pixel_delta_u = vdivs(viewport_u, of_int_s(image_width));
    let pixel_delta_v = vdivs(viewport_v, of_int_s(image_height));

    let viewport_origin = vsub(
        vsub(
            vsub(b.position, vscale(w_basis, b.focus_distance as int)),
            vdivs(viewport_u, FP_TWO as int),
        ),
        vdivs(viewport_v, FP_TWO as int),
    );
    let pixel_origin = vadd(
        viewport_origin,
        vscale(vadd(pixel_delta_u, pixel_delta_v), FP_HALF as int),
    );

    let defocus_radius = mul_s(
        b.focus_distance as int,
        tan_fp_s(deg_to_rad_s(tdiv(b.defocus_angle as int, 2))),
    );
    let defocus_disk_u = vscale(u_basis, defocus_radius);
    let defocus_disk_v = vscale(v_basis, defocus_radius);

    Camera {
        image_width: image_width as i32,
        image_height: image_height as i32,
        pixel_origin,
        pixel_delta_u,
        pixel_delta_v,
        samples_per_pixel: samples_per_pixel as i32,
        max_depth: max_depth as i32,
        location: b.position,
        defocus_disk_u,
        defocus_disk_v,
    }
}

/// The default framing: a square-ish image, ten samples and bounces, a
/// ninety-degree field of view looking down the negative z axis.
pub open spec fn default_builder_s() -> CameraBuilder {
    CameraBuilder {
        image_width: 800,
        image_height: 400,
        samples_per_pixel: 10,
        max_depth: 10,
        vertical_fov: 5898240,
        relative_up: Vector3 { x: 0, y: SCALE, z: 0 },
        position: Vector3 { x: 0, y: 0, z: 0 },
        point_at: Vector3 { x: 0, y: 0, z: -65536i64 },
        focus_distance: SCALE,
        defocus_angle: 0,
    }
}

impl Default for CameraBuilder {
    fn default() -> (r: Self)
        ensures
            r == default_builder_s(),
    {
        Self::new()
    }
}

impl CameraBuilder {
    pub fn new() -> (r: Self)
        ensures
            r == default_builder_s(),
    {
        CameraBuilder {
            image_width: 800,
            image_height: 400,
            samples_per_pixel: 10,
            max_depth: 10,
            vertical_fov: 5898240,
            relative_up: Vector3 { x: 0, y: SCALE, z: 0 },
            position: Vector3 { x: 0, y: 0, z: 0 },
            point_at: Vector3 { x: 0, y: 0, z: -SCALE },
            focus_distance: SCALE,
            defocus_angle: 0,
        }
    }

    /// Derive the immutable render geometry from the framing parameters.
    pub fn build(self) -> (c: Camera)
        ensures
            c == build_s(self),
    {
        let image_width = if self.image_width < 1 {
            1
        } else {
            self.image_width
        };
        let image_height = if self.image_height < 1 {
            1
        } else {
            self.image_height
        };
        let samples_per_pixel = if self.samples_per_pixel < 1 {
            1
        } else {
            self.samples_per_pixel
        };
        let max_depth = if self.max_depth < 1 {
            1
        } else {
            self.max_depth
        };

        let clamped_fov = if self.vertical_fov < 0 {
            0
        } else if self.vertical_fov > FP_180 {
            FP_180
        } else {
            self.vertical_fov
        };
        let theta = deg_to_rad(clamped_fov);
        let h = tan_fp(theta / 2);
        let viewport_height = fp_mul(fp_mul(FP_TWO, h), self.focus_distance);
        let viewport_width = fp_div(
            fp_mul(viewport_height, fp_of_int(image_width as i64)),
            fp_of_int(image_height as i64),
        );

        let w_basis = self.position.sub(self.point_at).normalize();
        let u_basis = self.relative_up.cross(w_basis).normalize();
        let v_basis = w_basis.cross(u_basis);

        let viewport_u = u_basis.scale(viewport_width);
        let viewport_v = v_basis.neg().scale(viewport_height);

        let pixel_delta_u = viewport_u.div_scalar(fp_of_int(image_width as i64));
        let pixel_delta_v = viewport_v.div_scalar(fp_of_int(image_height as i64));

        let viewport_origin = self
            .position
            .sub(w_basis.scale(self.focus_distance))
            .sub(viewport_u.div_scalar(FP_TWO))
            .sub(viewport_v.div_scalar(FP_TWO));
        let pixel_origin = viewport_origin.add(pixel_delta_u.add(pixel_delta_v).scale(FP_HALF));

        let defocus_radius = fp_mul(self.focus_distance, tan_fp(deg_to_rad(self.defocus_angle / 2)));
        let defocus_disk_u = u_basis.scale(defocus_radius);
        let defocus_disk_v = v_basis.scale(defocus_radius);

        Camera {
            image_width,
            image_height,
            pixel_origin,
            pixel_delta_u,
            pixel_delta_v,
            samples_per_pixel,
            max_depth,
            location: self.position,
            defocus_disk_u,
            defocus_disk_v,
        }
    }

    pub fn image(self, width: i32, height: i32) -> (r: Self)
        ensures
            r == (CameraBuilder { image_width: width, image_height: height, ..self }),
    {
        let mut next = self;
        next.image_width = width;
        next.image_height = height;
        next
    }

    pub fn pixel(self, samples: i32, depth: i32) -> (r: Self)
        ensures
            r == (CameraBuilder { samples_per_pixel: samples, max_depth: depth, ..self }),
    {
        let mut next = self;
        next.samples_per_pixel = samples;
        next.max_depth = depth;
        next
    }

    pub fn fov(self, vertical_fov: i64) -> (r: Self)
        ensures
            r == (CameraBuilder { vertical_fov, ..self }),
    {
        let mut next = self;
        next.vertical_fov = vertical_fov;
        next
    }

    pub fn position(self, camera_location: Vector3, point_at: Vector3) -> (r: Self)
        ensures
            r == (CameraBuilder { position: camera_location, point_at, ..self }),
    {
        let mut next = self;
        next.position = camera_location;
        next.point_at = point_at;
        next
    }

    pub fn up(self, direction: Vector3) -> (r: CameraBuilder)
        ensures
            r == (CameraBuilder { relative_up: direction, ..self }),
    {
        let mut next = self;
        next.relative_up = direction;
        next
    }

    /// Set the focus distance and the defocus angle in degrees, the angle
    /// clamped to the half-circle.
    pub fn focus(self, distance: i64, defocus: i64) -> (r: CameraBuilder)
        ensures
            r == (CameraBuilder {
                focus_distance: distance,
                defocus_angle: clamp_range_s(defocus as int, 0, FP_180 as int) as i64,
                ..self
            }),
    {
        let mut next = self;
        next.focus_distance = distance;
        next.defocus_angle = if defocus < 0 {
            0
        } else if defocus > FP_180 {
            FP_180
        } else {
            defocus
        };
        next
    }
}

/// A sub-pixel jitter: every component within half a pixel of the centre.
pub open spec fn square_sample_ok(v: Vector3) -> bool {
    &&& -FP_HALF <= v.x < FP_HALF
    &&& -FP_HALF <= v.y < FP_HALF
    &&& -FP_HALF <= v.z < FP_HALF
}

fn sample_square(rs: &mut RandomSource) -> (v: Vector3)
    ensures
        square_sample_ok(v),
{
    let x = rs.next_in(0, SCALE);
    let y = rs.next_in(0, SCALE);
    let z = rs.next_in(0, SCALE);
    Vector3 { x: fp_sub(x, FP_HALF), y: fp_sub(y, FP_HALF), z: fp_sub(z, FP_HALF) }
}

/// Square root tone mapping of one non-negative channel.
pub open spec fn linear_to_gamma_s(x: int) -> int {
    if x > 0 {
        sqrt_s(x)
    } else {
        0
    }
}

fn linear_to_gamma(scalar: i64) -> (r: i64)
    ensures
        r == linear_to_gamma_s(scalar as int),
{
    if scalar > 0 {
        fp_sqrt(scalar)
    } else {
        0
    }
}

/// One output channel: gamma correction, clamp below one, 8-bit scale.
pub open spec fn channel_out_s(x: int) -> int {
    to_int_s(
        mul_s(clamp_range_s(linear_to_gamma_s(x), 0, FP_CLAMP_MAX as int), FP_256 as int),
    )
}

proof fn lemma_channel_out_range(x: int)
    ensures
        0 <= channel_out_s(x) <= 255,
{
    let u = clamp_range_s(linear_to_gamma_s(x), 0, FP_CLAMP_MAX as int);
    assert(0 <= u <= FP_CLAMP_MAX);
    assert(0 <= u * FP_256 <= FP_CLAMP_MAX as int * FP_256) by (nonlinear_arith)
        requires
            0 <= u <= FP_CLAMP_MAX,
    ;
    crate::fixed::lemma_tdiv_monotone(0, u * FP_256, SCALE as int);
    crate::fixed::lemma_tdiv_monotone(
        u * FP_256,
        FP_CLAMP_MAX as int * FP_256,
        SCALE as int,
    );
    crate::fixed::lemma_tdiv_exact(FP_CLAMP_MAX as int * 256, SCALE as int);
    assert(FP_CLAMP_MAX as int * FP_256 == (FP_CLAMP_MAX as int * 256) * SCALE as int)
        by (nonlinear_arith);
    assert(crate::fixed::tdiv(0, SCALE as int) == 0);
    let m = mul_s(u, FP_256 as int);
    assert(0 <= m <= FP_CLAMP_MAX as int * 256);
    crate::fixed::lemma_tdiv_monotone(0, m, SCALE as int);
    crate::fixed::lemma_tdiv_monotone(m, FP_CLAMP_MAX as int * 256, SCALE as int);
    assert(crate::fixed::tdiv(FP_CLAMP_MAX as int * 256, SCALE as int) == 255);
}

/// The three bytes of one pixel from the summed sample colours.
pub open spec fn pixel_out_s(sum: Vector3, samples: int) -> (int, int, int) {
    let scale_factor = div_s(SCALE as int, of_int_s(samples));
    let avg = vscale(sum, scale_factor);
    (channel_out_s(avg.x as int), channel_out_s(avg.y as int), channel_out_s(avg.z as int))
}

/// Average the summed samples, tone map and scale to 8-bit channels.
pub fn finalize_pixel(sum: Vector3, samples: i32) -> (px: (u32, u32, u32))
    requires
        samples >= 1,
    ensures
        px.0 == pixel_out_s(sum, samples as int).0,
        px.1 == pixel_out_s(sum, samples as int).1,
        px.2 == pixel_out_s(sum, samples as int).2,
        px.0 <= 255 && px.1 <= 255 && px.2 <= 255,
{
    let scale_factor = fp_div(SCALE, fp_of_int(samples as i64));
    let avg = sum.scale(scale_factor);
    proof {
        lemma_channel_out_range(avg.x as int);
        lemma_channel_out_range(avg.y as int);
        lemma_channel_out_range(avg.z as int);
    }
    let cx = channel_out(avg.x);
    let cy = channel_out(avg.y);
    let cz = channel_out(avg.z);
    (cx as u32, cy as u32, cz as u32)
}

fn channel_out(x: i64) -> (r: i64)
    ensures
        r == channel_out_s(x as int),
{
    let g = linear_to_gamma(x);
    let clamped = if g < 0 {
        0
    } else if g > FP_CLAMP_MAX {
        FP_CLAMP_MAX
    } else {
        g
    };
    fp_to_int(fp_mul(clamped, FP_256))
}

/// The lens point for a disk sample `p`.
pub open spec fn defocus_point_s(cam: Camera, p: Vector3) -> Vector3 {
    vadd(
        vadd(cam.location, vscale(cam.defocus_disk_u, p.x as int)),
        vscale(cam.defocus_disk_v, p.y as int),
    )
}

/// The jittered viewport point a ray is aimed at.
pub open spec fn pixel_sample_s(cam: Camera, i: int, j: int, off: Vector3) -> Vector3 {
    vadd(
        vadd(cam.pixel_origin, vscale(cam.pixel_delta_u, add_s(of_int_s(i), off.x as int))),
        vscale(cam.pixel_delta_v, add_s(of_int_s(j), off.y as int)),
    )
}

/// The ray determined by pixel `(i, j)`, the jitter `off` and the disk
/// sample `lens`: the origin is the camera location, or a point of the
/// defocus disk when the lens is enabled, and the direction leads from the
/// origin to the jittered viewport sample.
pub open spec fn ray_from_samples(
    cam: Camera,
    i: int,
    j: int,
    off: Vector3,
    lens: Vector3,
    r: Ray3,
) -> bool {
    &&& square_sample_ok(off)
    &&& if vlen(cam.defocus_disk_u) <= 0 {
        r.origin == cam.location
    } else {
        in_unit_ball(lens) && lens.z == 0 && r.origin == defocus_point_s(cam, lens)
    }
    &&& r.direction == vsub(pixel_sample_s(cam, i, j, off), r.origin)
}

/// What `get_ray` guarantees: the ray comes from some jitter and disk
/// sample for pixel `(i, j)`.
pub open spec fn get_ray_ok(cam: Camera, i: int, j: int, r: Ray3) -> bool {
    exists|off: Vector3, lens: Vector3| ray_from_samples(cam, i, j, off, lens, r)
}

/// The sum of the sample colours of a trace, in the order they were drawn.
pub open spec fn sum_colors(samples: Seq<(Ray3, Vector3)>) -> Vector3
    decreases samples.len(),
{
    if samples.len() == 0 {
        crate::vector::vzero()
    } else {
        vadd(sum_colors(samples.drop_last()), samples.last().1)
    }
}

/// One pixel's sample trace: every ray comes from the pixel's jitter and
/// lens sampling, every colour is a possible evaluation of its ray, and
/// the pixel is the tone-mapped average of the trace.
pub open spec fn sample_trace_ok(
    cam: Camera,
    objects: Seq<crate::sphere::Sphere>,
    x: int,
    y: int,
    px: (u32, u32, u32),
    samples: Seq<(Ray3, Vector3)>,
) -> bool {
    &&& samples.len() == cam.samples_per_pixel
    &&& forall|n: int|
        0 <= n < samples.len() ==> get_ray_ok(cam, x, y, (#[trigger] samples[n]).0)
            && crate::ray::color_possible(
            samples[n].0,
            cam.max_depth as int,
            objects,
            samples[n].1,
        )
    &&& px.0 == pixel_out_s(sum_colors(samples), cam.samples_per_pixel as int).0
    &&& px.1 == pixel_out_s(sum_colors(samples), cam.samples_per_pixel as int).1
    &&& px.2 == pixel_out_s(sum_colors(samples), cam.samples_per_pixel as int).2
}

/// What `render_pixel` guarantees: the pixel arises from some trace of
/// jittered rays and possible ray colours.
pub open spec fn pixel_possible(
    cam: Camera,
    objects: Seq<crate::sphere::Sphere>,
    x: int,
    y: int,
    px: (u32, u32, u32),
) -> bool {
    exists|samples: Seq<(Ray3, Vector3)>| sample_trace_ok(cam, objects, x, y, px, samples)
}

impl Camera {
    /// A ray for pixel `(i, j)`: jittered within the pixel, originating on
    /// the lens disk when defocus is enabled.
    pub fn get_ray(&self, i: i32, j: i32, rs: &mut RandomSource) -> (r: Ray3)
        ensures
            get_ray_ok(*self, i as int, j as int, r),
    {
        let offset = sample_square(rs);
        let pixel_sample = self
            .pixel_origin
            .add(self.pixel_delta_u.scale(fp_add(fp_of_int(i as i64), offset.x)))
            .add(self.pixel_delta_v.scale(fp_add(fp_of_int(j as i64), offset.y)));

        let ghost mut lens_witness = offset;
        let origin = if self.defocus_disk_u.length() <= 0 {
            self.location
        } else {
            let (o, w) = self.sample_defocus_disk_with(rs);
            proof {
                lens_witness = w@;
            }
            o
        };
        let direction = pixel_sample.sub(origin);
        let r = Ray3 { origin, direction };
        proof {
            assert(ray_from_samples(*self, i as int, j as int, offset, lens_witness, r));
        }
        r
    }

    /// A point of the defocus disk, with the disk sample that produced it.
    fn sample_defocus_disk_with(&self, rs: &mut RandomSource) -> (r: (Vector3, Ghost<Vector3>))
        ensures
            in_unit_ball(r.1@) && r.1@.z == 0 && r.0 == defocus_point_s(*self, r.1@),
    {
        let offset = crate::vector_utils::random_in_unit_disk(rs);
        let o = self
            .location
            .add(self.defocus_disk_u.scale(offset.x))
            .add(self.defocus_disk_v.scale(offset.y));
        (o, Ghost(offset))
    }

    /// A point of the defocus disk.
    pub fn sample_defocus_disk(&self, rs: &mut RandomSource) -> (o: Vector3)
        ensures
            exists|p: Vector3| in_unit_ball(p) && p.z == 0 && o == defocus_point_s(*self, p),
    {
        let (o, w) = self.sample_defocus_disk_with(rs);
        proof {
            assert(in_unit_ball(w@) && w@.z == 0 && o == defocus_point_s(*self, w@));
        }
        o
    }

    /// Render one pixel: average `samples_per_pixel` jittered rays through
    /// the scene, then tone map to 8-bit channels.
    pub fn render_pixel(
        &self,
        world: &HittableList,
        x: i32,
        y: i32,
        seed: u64,
    ) -> (px: (u32, u32, u32))
        requires
            scene_wf(world.objects@),
            self.samples_per_pixel >= 1,
        ensures
            pixel_possible(*self, world.objects@, x as int, y as int, px),
            px.0 <= 255 && px.1 <= 255 && px.2 <= 255,
    {
        let mut rs = RandomSource::new(seed);
        let mut acc = Vector3::zero();
        let mut k: i32 = 0;
        let ghost mut trace: Seq<(Ray3, Vector3)> = Seq::empty();
        while k < self.samples_per_pixel
            invariant
                scene_wf(world.objects@),
                0 <= k <= self.samples_per_pixel,
                trace.len() == k,
                acc == sum_colors(trace),
                forall|n: int|
                    0 <= n < trace.len() ==> get_ray_ok(*self, x as int, y as int, (
                    #[trigger] trace[n]).0) && crate::ray::color_possible(
                        trace[n].0,
                        self.max_depth as int,
                        world.objects@,
                        trace[n].1,
                    ),
            decreases self.samples_per_pixel - k,
        {
            let ray = self.get_ray(x, y, &mut rs);
            let sample = ray.color(self.max_depth, world, &mut rs);
            acc = acc.add(sample);
            k = k + 1;
            proof {
                let prev = trace;
                trace = trace.push((ray, sample));
                assert(trace.drop_last() =~= prev);
                assert(trace.last() == (ray, sample));
            }
        }
        let px = finalize_pixel(acc, self.samples_per_pixel);
        proof {
            assert(sample_trace_ok(
                *self,
                world.objects@,
                x as int,
                y as int,
                px,
                trace,
            ));
        }
        px
    }

    /// Render every pixel in row-major order, each from its own seeded
    /// random stream so that equal seeds give equal images.
    pub fn render(self, world: &HittableList, seed: u64) -> (image: Vec<(u32, u32, u32)>)
        requires
            scene_wf(world.objects@),
            self.image_width >= 1,
            self.image_height >= 1,
            self.samples_per_pixel >= 1,
            self.image_width as int * self.image_height as int <= 1000000000,
        ensures
            image.len() == self.image_width as int * self.image_height as int,
            forall|k: int|
                0 <= k < image.len() ==> (#[trigger] image[k]).0 <= 255 && image[k].1 <= 255
                    && image[k].2 <= 255,
            forall|k: int|
                0 <= k < image.len() ==> pixel_possible(
                    self,
                    world.objects@,
                    k % (self.image_width as int),
                    k / (self.image_width as int),
                    #[trigger] image[k],
                ),
    {
        let w = self.image_width as usize;
        let h = self.image_height as usize;
        proof {
            assert(w * h == self.image_width as int * self.image_height as int)
                by (nonlinear_arith)
                requires
                    w == self.image_width as int,
                    h == self.image_height as int,
            ;
        }
        let mut image: Vec<(u32, u32, u32)> = Vec::new();
        let mut y: usize = 0;
        while y < h
            invariant
                scene_wf(world.objects@),
                self.samples_per_pixel >= 1,
                w == self.image_width as int,
                h == self.image_height as int,
                w as int * h as int <= 1000000000,
                y <= h,
                image.len() == y * w,
                forall|k: int|
                    0 <= k < image.len() ==> (#[trigger] image[k]).0 <= 255 && image[k].1
                        <= 255 && image[k].2 <= 255,
                forall|k: int|
                    0 <= k < image.len() ==> pixel_possible(
                        self,
                        world.objects@,
                        k % (self.image_width as int),
                        k / (self.image_width as int),
                        #[trigger] image[k],
                    ),
            decreases h - y,
        {
            let mut x: usize = 0;
            proof {
                assert(y * w + w <= 1000000000 && y * w + w == (y + 1) * w)
                    by (nonlinear_arith)
                    requires
                        0 <= y < h,
                        w >= 0,
                        w as int * h as int <= 1000000000,
                ;
            }
            while x < w
                invariant
                    scene_wf(world.objects@),
                    self.samples_per_pixel >= 1,
                    w == self.image_width as int,
                    h == self.image_height as int,
                    w as int * h as int <= 1000000000,
                    y < h,
                    x <= w,
                    y * w + w <= 1000000000,
                    image.len() == y * w + x,
                    forall|k: int|
                        0 <= k < image.len() ==> (#[trigger] image[k]).0 <= 255 && image[k].1
                            <= 255 && image[k].2 <= 255,
                    forall|k: int|
                        0 <= k < image.len() ==> pixel_possible(
                            self,
                            world.objects@,
                            k % (self.image_width as int),
                            k / (self.image_width as int),
                            #[trigger] image[k],
                        ),
                decreases w - x,
            {
                let index: u64 = (y as u64) * (w as u64) + (x as u64);
                let px = self.render_pixel(world, x as i32, y as i32, seed ^ index);
                image.push(px);
                proof {
                    vstd::arithmetic::div_mod::lemma_fundamental_div_mod_converse(
                        y as int * w as int + x as int,
                        w as int,
                        y as int,
                        x as int,
                    );
                    assert(image@[image@.len() - 1] == px);
                    assert(pixel_possible(
                        self,
                        world.objects@,
                        x as int,
                        y as int,
                        px,
                    ));
                }
                x = x + 1;
            }
            y = y + 1;
        }
        proof {
            assert(h * w == self.image_width as int * self.image_height as int)
                by (nonlinear_arith)
                requires
                    w == self.image_width as int,
                    h == self.image_height as int,
            ;
        }
        image
    }
}

} // verus!
