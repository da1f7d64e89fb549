use raytracer::camera::finalize_pixel;
use raytracer::camera::CameraBuilder;
use raytracer::color::color_bytes;
use raytracer::color::ColorRGB;
use raytracer::fixed::fp_of_int;
use raytracer::fixed::LIM;
use raytracer::fixed::SCALE;
use raytracer::hittable::HittableList;
use raytracer::interval::Interval;
use raytracer::material::Material;
use raytracer::ray::background_color;
use raytracer::ray::Ray3;
use raytracer::ray::T_EPSILON;
use raytracer::rng::RandomSource;
use raytracer::sphere::Sphere;
use raytracer::vector::Vector3;

fn gray() -> Material {
    Material::Lambertian { albedo: Vector3::new(32768, 32768, 32768) }
}

fn single_sphere_world() -> HittableList {
    HittableList::new_with(Sphere::new(Vector3::new(0, 0, -SCALE), 32768, gray()))
}

#[test]
fn depth_exhausted_is_black() {
    let world = single_sphere_world();
    let ray = Ray3::new(Vector3::zero(), Vector3::new(0, 0, -SCALE));
    let mut rs = RandomSource::new(3);
    assert_eq!(ray.color(0, &world, &mut rs), Vector3::zero());
    assert_eq!(ray.color(-5, &world, &mut rs), Vector3::zero());
}

#[test]
fn missed_ray_shows_background() {
    let world = single_sphere_world();
    let ray = Ray3::new(Vector3::zero(), Vector3::new(0, SCALE, 0));
    let mut rs = RandomSource::new(3);
    assert_eq!(ray.color(10, &world, &mut rs), background_color(ray));
}

#[test]
fn background_gradient_values() {
    // Straight down the axis the direction has no height: an even mix of
    // white and sky blue.
    let level = Ray3::new(Vector3::zero(), Vector3::new(0, 0, -SCALE));
    assert_eq!(background_color(level), Vector3::new(49152, 55705, 65536));
    // Straight up is pure sky blue; straight down is pure white.
    let up = Ray3::new(Vector3::zero(), Vector3::new(0, SCALE, 0));
    assert_eq!(background_color(up), Vector3::new(32768, 45875, 65536));
    let down = Ray3::new(Vector3::zero(), Vector3::new(0, -SCALE, 0));
    assert_eq!(background_color(down), Vector3::new(65536, 65536, 65536));
}

#[test]
fn color_type_clamps() {
    let c = ColorRGB::new(-5, 70000, 32768);
    assert_eq!(c, ColorRGB { r: 0, g: SCALE, b: 32768 });
    let sum = c.add(ColorRGB::new(SCALE, 0, 32768));
    assert_eq!(sum, ColorRGB { r: SCALE, g: SCALE, b: SCALE });
    let scaled = ColorRGB::new(SCALE, 32768, 0).mul(32768);
    assert_eq!(scaled, ColorRGB { r: 32768, g: 16384, b: 0 });
    let lifted = ColorRGB::new(0, 0, 0).add_vector(Vector3::new(SCALE, 32768, -7));
    assert_eq!(lifted, ColorRGB { r: SCALE, g: 32768, b: 0 });
}

#[test]
fn color_bytes_exact() {
    assert_eq!(color_bytes(ColorRGB { r: SCALE, g: 0, b: 32768 }), (255, 0, 127));
    assert_eq!(color_bytes(ColorRGB { r: 70000, g: -3, b: SCALE }), (255, 0, 255));
}

#[test]
fn ray_evaluates_points() {
    let ray = Ray3::new(
        Vector3::new(fp_of_int(1), fp_of_int(2), fp_of_int(3)),
        Vector3::new(fp_of_int(1), 0, -fp_of_int(1)),
    );
    assert_eq!(ray.at(fp_of_int(2)), Vector3::new(fp_of_int(3), fp_of_int(2), fp_of_int(1)));
    assert_eq!(ray.at(0), ray.origin);
}

#[test]
fn angle_conversion_is_exact_on_the_half_turn() {
    assert_eq!(
        raytracer::camera::deg_to_rad(raytracer::camera::FP_180),
        raytracer::camera::FP_PI
    );
    assert_eq!(raytracer::camera::deg_to_rad(0), 0);
    assert_eq!(raytracer::camera::tan_fp(0), 0);
}

#[test]
fn builder_setters_carry_through() {
    let position = Vector3::new(fp_of_int(1), fp_of_int(2), fp_of_int(3));
    let camera = CameraBuilder::new()
        .image(64, 32)
        .pixel(4, 7)
        .fov(fp_of_int(90))
        .position(position, Vector3::zero())
        .up(Vector3::new(0, SCALE, 0))
        .focus(fp_of_int(2), 0)
        .build();
    assert_eq!(camera.image_width, 64);
    assert_eq!(camera.image_height, 32);
    assert_eq!(camera.samples_per_pixel, 4);
    assert_eq!(camera.max_depth, 7);
    assert_eq!(camera.location, position);
}

#[test]
fn builder_clamps_degenerate_settings() {
    let camera = CameraBuilder::new().image(-3, 0).pixel(0, -2).build();
    assert_eq!(camera.image_width, 1);
    assert_eq!(camera.image_height, 1);
    assert_eq!(camera.samples_per_pixel, 1);
    assert_eq!(camera.max_depth, 1);
}

#[test]
fn finalize_pixel_tone_maps() {
    // A full-white sample stays the brightest representable channel.
    let white = Vector3::new(SCALE, SCALE, SCALE);
    assert_eq!(finalize_pixel(white, 1), (255, 255, 255));
    // Gamma correction halves the exponent: a quarter becomes a half.
    let quarter = Vector3::new(16384, 0, 16384);
    assert_eq!(finalize_pixel(quarter, 1), (128, 0, 128));
    // Averaging two samples of the same colour changes nothing.
    let one = finalize_pixel(Vector3::new(32768, 0, 32768), 1);
    let two = finalize_pixel(Vector3::new(65536, 0, 65536), 2);
    assert_eq!(one, two);
    assert_eq!(one, (181, 0, 181));
}

#[test]
fn same_seed_renders_identically() {
    let mut world = HittableList::new();
    world.add(Sphere::new(Vector3::new(0, 0, -fp_of_int(2)), SCALE, gray()));
    world.add(Sphere::new(
        Vector3::new(-fp_of_int(2), 0, -fp_of_int(2)),
        SCALE,
        Material::Metal { albedo: Vector3::new(45875, 45875, 45875), fuzz: 16384 },
    ));
    world.add(Sphere::new(
        Vector3::new(fp_of_int(2), 0, -fp_of_int(2)),
        SCALE,
        Material::Dielectric { refraction_index: 98304 },
    ));
    let camera = CameraBuilder::new().image(40, 22).pixel(2, 5).build();
    let first = camera.render(&world, 7);
    let second = camera.render(&world, 7);
    assert_eq!(first.len(), 40 * 22);
    assert_eq!(first, second);
}

#[test]
fn single_sphere_band_and_background() {
    // A half-unit sphere one unit ahead, a 16:9 image four hundred wide:
    // the centre row shows the sphere disc in a middle band, and far from
    // it the exact background gradient.
    let world = single_sphere_world();
    let camera = CameraBuilder::new().image(400, 225).pixel(1, 5).build();
    let seed: u64 = 123;
    let image = camera.render(&world, seed);
    assert_eq!(image.len(), 400 * 225);

    let row: usize = 112;
    let query = Interval::new(T_EPSILON, LIM);
    for x in 0..400usize {
        let index = (row as u64) * 400 + x as u64;
        let mut rs = RandomSource::new(seed ^ index);
        let ray = camera.get_ray(x as i32, row as i32, &mut rs);
        let px = image[row * 400 + x];
        if (160..240).contains(&x) {
            // Inside the sphere's angular extent the ray strikes it.
            assert!(world.hit(ray, query).is_some(), "pixel {} should hit", x);
        }
        if !(100..300).contains(&x) {
            // Far outside the band: exactly the background gradient.
            assert!(world.hit(ray, query).is_none(), "pixel {} should miss", x);
            let expected = finalize_pixel(background_color(ray), 1);
            assert_eq!(px, expected, "pixel {} should show the gradient", x);
        }
    }
}
