use raytracer::camera::{Camera, RayDraw};
use raytracer::color::Color;
use raytracer::dielectric::Dielectric;
use raytracer::fixed::Fixed;
use raytracer::hittable_list::HittableList;
use raytracer::image::Pixel;
use raytracer::lambertian::Lambertian;
use raytracer::material::{Material, ScatterDraw};
use raytracer::metal::Metal;
use raytracer::ray::Ray;
use raytracer::sphere::Sphere;
use raytracer::vec3::Vec3;

fn fx(x: f64) -> Fixed {
    Fixed::from_raw((x * 1_000_000.0).round() as i64)
}

fn v(a: f64, b: f64, c: f64) -> Vec3 {
    Vec3::new(fx(a), fx(b), fx(c))
}

fn close(a: Vec3, b: Vec3, tolerance: i64) -> bool {
    (a.x().count() - b.x().count()).abs() <= tolerance
        && (a.y().count() - b.y().count()).abs() <= tolerance
        && (a.z().count() - b.z().count()).abs() <= tolerance
}

fn matt(r: f64, g: f64, b: f64) -> Material {
    Material::Lambertian(Lambertian::new(Color::new(fx(r), fx(g), fx(b))))
}

fn two_spheres() -> HittableList<Sphere> {
    let mut world = HittableList::new();
    world.push(Sphere::new(v(0., 0., -1.), fx(0.5), matt(0.5, 0.5, 0.5)));
    world.push(Sphere::new(v(0., -100.5, -1.), fx(100.), matt(0.5, 0.5, 0.5)));
    world
}

fn camera_at_origin(width: i32) -> Camera {
    let mut camera = Camera::new();
    camera.lookfrom = v(0., 0., 0.);
    camera.lookat = v(0., 0., -1.);
    camera.up = v(0., 1., 0.);
    camera.fov = fx(90.);
    camera.focus_dist = fx(1.);
    camera.aspect_ratio = fx(1.);
    camera.image_width = width;
    camera
}

fn no_draw() -> ScatterDraw {
    ScatterDraw { offset: v(0., 0., 0.), chance: fx(0.) }
}

#[test]
fn new_camera_has_the_default_settings() {
    let camera = Camera::new();
    assert_eq!(camera.samples_per_pixel, 10);
    assert_eq!(camera.max_depth, 10);
    assert_eq!(camera.fov, fx(90.));
    assert_eq!(camera.image_width, 100);
    assert_eq!(camera.aspect_ratio, fx(1.));
    assert_eq!(camera.lookfrom, v(0., 0., -1.));
    assert_eq!(camera.lookat, v(0., 0., 0.));
    assert_eq!(camera.up, v(0., 1., 0.));
    assert_eq!(camera.defocus_angle, fx(0.));
    assert_eq!(camera.focus_dist, fx(10.));
    assert_eq!(camera.image_height(), 100);
    assert_eq!(camera.center, v(0., 0., 0.));
    assert_eq!(camera.pixel00_loc, v(-1., 1., -1.));
    assert_eq!(camera.pixel_delta_u, v(0.02, 0., 0.));
    assert_eq!(camera.pixel_delta_v, v(0., -0.02, 0.));
    assert_eq!(camera.u, v(0., 0., 0.));
    assert_eq!(camera.v, v(0., 0., 0.));
    assert_eq!(camera.w, v(0., 0., 0.));
    assert_eq!(camera.defocus_disk_u, v(0., 0., 0.));
    assert_eq!(camera.defocus_disk_v, v(0., 0., 0.));
}

#[test]
fn initialise_works_out_the_frame_of_the_default_camera() {
    let mut camera = Camera::new();
    camera.initialise();
    assert_eq!(camera.image_height(), 100);
    assert_eq!(camera.center, v(0., 0., -1.));
    assert_eq!(camera.w, v(0., 0., -1.));
    assert_eq!(camera.u, v(-1., 0., 0.));
    assert_eq!(camera.v, v(0., 1., 0.));
    // The window is 2 tan(45 deg) * 10 = 20 high and wide, a hundred pixels each way.
    assert!(close(camera.pixel_delta_u, v(-0.2, 0., 0.), 2));
    assert!(close(camera.pixel_delta_v, v(0., -0.2, 0.), 2));
    assert!(close(camera.pixel00_loc, v(9.9, 9.9, 9.), 100));
    assert_eq!(camera.defocus_disk_u, v(0., 0., 0.));
    assert_eq!(camera.defocus_disk_v, v(0., 0., 0.));
}

#[test]
fn initialise_leaves_the_settings_alone() {
    let mut camera = Camera::new();
    camera.samples_per_pixel = 7;
    camera.max_depth = 3;
    camera.fov = fx(20.);
    camera.image_width = 30;
    camera.aspect_ratio = fx(1.5);
    camera.lookfrom = v(13., 2., 3.);
    camera.lookat = v(0., 0., 0.);
    camera.up = v(0., 1., 0.);
    camera.defocus_angle = fx(0.6);
    camera.focus_dist = fx(10.);
    camera.initialise();
    assert_eq!(camera.samples_per_pixel, 7);
    assert_eq!(camera.max_depth, 3);
    assert_eq!(camera.fov, fx(20.));
    assert_eq!(camera.image_width, 30);
    assert_eq!(camera.aspect_ratio, fx(1.5));
    assert_eq!(camera.lookfrom, v(13., 2., 3.));
    assert_eq!(camera.lookat, v(0., 0., 0.));
    assert_eq!(camera.up, v(0., 1., 0.));
    assert_eq!(camera.defocus_angle, fx(0.6));
    assert_eq!(camera.focus_dist, fx(10.));
    assert_eq!(camera.image_height(), 20);
    assert_eq!(camera.center, v(13., 2., 3.));
}

#[test]
fn image_height_is_width_over_aspect_ratio() {
    let mut camera = Camera::new();
    camera.image_width = 1200;
    camera.aspect_ratio = Fixed::ratio(16, 9);
    camera.initialise();
    assert_eq!(camera.image_height(), 675);
    camera.image_width = 400;
    camera.aspect_ratio = fx(2.);
    camera.initialise();
    assert_eq!(camera.image_height(), 200);
    camera.image_width = 10;
    camera.aspect_ratio = fx(3.);
    camera.initialise();
    assert_eq!(camera.image_height(), 3);
}

#[test]
fn image_height_is_one_at_least() {
    let mut camera = Camera::new();
    camera.image_width = 1;
    camera.aspect_ratio = fx(2.);
    camera.initialise();
    assert_eq!(camera.image_height(), 1);
    camera.image_width = 0;
    camera.initialise();
    assert_eq!(camera.image_height(), 1);
}

#[test]
fn image_height_is_capped() {
    let mut camera = Camera::new();
    camera.image_width = i32::MAX;
    camera.aspect_ratio = fx(0.000001);
    camera.initialise();
    assert_eq!(camera.image_height(), i32::MAX);
}

#[test]
fn frame_of_a_camera_at_the_origin() {
    let mut camera = camera_at_origin(4);
    camera.initialise();
    assert_eq!(camera.image_height(), 4);
    assert_eq!(camera.w, v(0., 0., 1.));
    assert_eq!(camera.u, v(1., 0., 0.));
    assert_eq!(camera.v, v(0., 1., 0.));
    // The window is 2 by 2 at distance 1: pixels of 0.5, the first about (-0.75, 0.75, -1).
    assert!(close(camera.pixel_delta_u, v(0.5, 0., 0.), 2));
    assert!(close(camera.pixel_delta_v, v(0., -0.5, 0.), 2));
    assert!(close(camera.pixel00_loc, v(-0.75, 0.75, -1.), 5));
}

#[test]
fn lens_radius_follows_the_defocus_angle() {
    let mut camera = camera_at_origin(4);
    camera.defocus_angle = fx(90.);
    camera.focus_dist = fx(2.);
    camera.initialise();
    // 2 tan(45 deg) = 2.
    assert!(close(camera.defocus_disk_u, v(2., 0., 0.), 10));
    assert!(close(camera.defocus_disk_v, v(0., 2., 0.), 10));
}

#[test]
fn ray_through_the_middle_of_a_pixel() {
    let mut camera = camera_at_origin(4);
    camera.initialise();
    let middle = RayDraw { jitter_x: fx(0.5), jitter_y: fx(0.5), lens: v(0., 0., 0.) };
    let ray = camera.get_ray_with(0, 0, &middle);
    assert_eq!(ray.origin(), v(0., 0., 0.));
    assert_eq!(ray.direction(), camera.pixel00_loc);
    let ray = camera.get_ray_with(3, 2, &middle);
    let expected = camera.pixel00_loc + camera.pixel_delta_v * fx(2.) + camera.pixel_delta_u * fx(3.);
    assert_eq!(ray.direction(), expected);
    assert!(close(ray.direction(), v(0.75, -0.25, -1.), 10));
}

#[test]
fn jitter_moves_the_aim_within_the_pixel() {
    let mut camera = camera_at_origin(4);
    camera.initialise();
    let corner = RayDraw { jitter_x: fx(0.), jitter_y: fx(0.), lens: v(0., 0., 0.) };
    let ray = camera.get_ray_with(1, 1, &corner);
    // Half a pixel left of and above the middle (-0.25, 0.25, -1).
    assert!(close(ray.direction(), v(-0.5, 0.5, -1.), 10));
    let other = RayDraw { jitter_x: fx(0.999999), jitter_y: fx(0.999999), lens: v(0., 0., 0.) };
    let ray = camera.get_ray_with(1, 1, &other);
    assert!(close(ray.direction(), v(0., 0., -1.), 10));
}

#[test]
fn a_camera_without_lens_starts_every_ray_at_its_middle() {
    let mut camera = camera_at_origin(4);
    camera.initialise();
    let draw = RayDraw { jitter_x: fx(0.5), jitter_y: fx(0.5), lens: v(0.5, -0.5, 0.) };
    assert_eq!(camera.get_ray_with(2, 2, &draw).origin(), v(0., 0., 0.));
    for _ in 0..50 {
        assert_eq!(camera.get_ray(2, 2).origin(), v(0., 0., 0.));
    }
}

#[test]
fn a_camera_with_lens_starts_rays_on_the_lens() {
    let mut camera = camera_at_origin(4);
    camera.defocus_angle = fx(90.);
    camera.focus_dist = fx(2.);
    camera.initialise();
    let draw = RayDraw { jitter_x: fx(0.5), jitter_y: fx(0.5), lens: v(0.5, -0.25, 0.) };
    let ray = camera.get_ray_with(0, 0, &draw);
    assert!(close(ray.origin(), v(1., -0.5, 0.), 10));
    // Whatever the start, the ray aims at the same point of the window.
    assert!(close(ray.origin() + ray.direction(), camera.pixel00_loc, 2));
    let mut moved = false;
    for _ in 0..50 {
        let ray = camera.get_ray(0, 0);
        if ray.origin() != v(0., 0., 0.) {
            moved = true;
        }
        assert_eq!(ray.origin().z(), fx(0.));
        assert!(ray.origin().x().count().abs() <= 2_000_010);
        assert!(ray.origin().y().count().abs() <= 2_000_010);
    }
    assert!(moved);
}

#[test]
fn get_ray_aims_within_its_pixel() {
    let mut camera = camera_at_origin(4);
    camera.initialise();
    let mut varied = false;
    let first = camera.get_ray(1, 2).direction();
    for _ in 0..100 {
        let d = camera.get_ray(1, 2).direction();
        // Pixel (1, 2) spans x from -0.5 to 0 and y from 0 to -0.5.
        assert!(-500_010 <= d.x().count() && d.x().count() <= 10);
        assert!(-500_010 <= d.y().count() && d.y().count() <= 10);
        assert_eq!(d.z(), fx(-1.));
        if d != first {
            varied = true;
        }
    }
    assert!(varied);
}

#[test]
fn sky_runs_from_white_to_blue() {
    assert_eq!(Camera::sky(&Ray::new(v(0., 0., 0.), v(0., 1., 0.))), v(0.5, 0.7, 1.));
    assert_eq!(Camera::sky(&Ray::new(v(0., 0., 0.), v(0., -3., 0.))), v(1., 1., 1.));
    assert_eq!(Camera::sky(&Ray::new(v(0., 0., 0.), v(1., 0., 0.))), v(0.75, 0.85, 1.));
}

#[test]
fn no_bounce_left_means_black() {
    let world = two_spheres();
    let rays = [
        Ray::new(v(0., 0., 0.), v(0., 0., -1.)),
        Ray::new(v(0., 0., 0.), v(0., 1., 0.)),
        Ray::new(v(5., 5., 5.), v(-1., 0.3, 0.)),
        Ray::new(v(0., 0., 0.), v(0., 0., 0.)),
    ];
    let empty: HittableList<Sphere> = HittableList::new();
    for ray in &rays {
        assert_eq!(Camera::ray_color(ray, 0, &world), v(0., 0., 0.));
        assert_eq!(Camera::ray_color(ray, 0, &empty), v(0., 0., 0.));
        assert_eq!(Camera::ray_color(ray, -5, &world), v(0., 0., 0.));
        assert_eq!(Camera::ray_color_with(ray, 0, &world, &Vec::new(), 0), v(0., 0., 0.));
    }
}

#[test]
fn a_ray_that_meets_nothing_brings_the_sky() {
    let world = two_spheres();
    let up = Ray::new(v(0., 0., 0.), v(0., 1., 0.));
    assert_eq!(Camera::ray_color(&up, 5, &world), v(0.5, 0.7, 1.));
    assert_eq!(Camera::ray_color(&up, 1, &world), v(0.5, 0.7, 1.));
    let draws = vec![no_draw(), no_draw()];
    assert_eq!(Camera::ray_color_with(&up, 2, &world, &draws, 0), v(0.5, 0.7, 1.));
}

#[test]
fn one_bounce_dims_the_sky_by_the_albedo() {
    let mut world = HittableList::new();
    world.push(Sphere::new(v(0., 0., -1.), fx(0.5), matt(0.5, 0.25, 1.)));
    let ray = Ray::new(v(0., 0., 0.), v(0., 0., -1.));
    // The surface is met at (0, 0, -0.5) with normal (0, 0, 1); the offset (0, 1, 0)
    // sends the light on along (0, 1, 1), where the sky is
    // 0.5 (y + 1) = 0.853553 of the way from white to blue.
    let draws = vec![ScatterDraw { offset: v(0., 1., 0.), chance: fx(0.) }, no_draw()];
    let color = Camera::ray_color_with(&ray, 2, &world, &draws, 0);
    let a = 0.5 * (0.5f64.sqrt() + 1.);
    let sky = [1. - a + a * 0.5, 1. - a + a * 0.7, 1.];
    assert!(close(color, v(0.5 * sky[0], 0.25 * sky[1], sky[2]), 5));
    // With one bounce only, the light is given up at the surface.
    assert_eq!(Camera::ray_color_with(&ray, 1, &world, &draws, 0), v(0., 0., 0.));
}

#[test]
fn draws_are_taken_from_the_given_place_on() {
    let mut world = HittableList::new();
    world.push(Sphere::new(v(0., 0., -1.), fx(0.5), matt(0.5, 0.25, 1.)));
    let ray = Ray::new(v(0., 0., 0.), v(0., 0., -1.));
    let straight = ScatterDraw { offset: v(0., 0., 0.), chance: fx(0.) };
    let aside = ScatterDraw { offset: v(0., 1., 0.), chance: fx(0.) };
    let draws = vec![straight, aside, no_draw()];
    let from_first = Camera::ray_color_with(&ray, 2, &world, &draws, 0);
    let from_second = Camera::ray_color_with(&ray, 2, &world, &draws, 1);
    // Straight back along the normal the sky is 0.5 of the way to blue.
    assert_eq!(from_first, v(0.5 * 0.75, 0.25 * 0.85, 1.));
    assert_ne!(from_first, from_second);
}

#[test]
fn swallowed_light_is_black() {
    let mut world = HittableList::new();
    world.push(Sphere::new(
        v(0., 0., -1.),
        fx(0.5),
        Material::Metal(Metal::new(Color::new(fx(1.), fx(1.), fx(1.)), fx(1.))),
    ));
    let ray = Ray::new(v(0., 0., 0.), v(0., 0., -1.));
    // The mirror image (0, 0, 1) plus the offset (0, 0, -1) leads nowhere.
    let draws = vec![ScatterDraw { offset: v(0., 0., -1.), chance: fx(0.) }, no_draw(), no_draw()];
    assert_eq!(Camera::ray_color_with(&ray, 3, &world, &draws, 0), v(0., 0., 0.));
}

#[test]
fn light_passes_through_glass_of_index_one() {
    let mut world = HittableList::new();
    world.push(Sphere::new(v(0., 0., -1.), fx(0.5), Material::Dielectric(Dielectric::new(fx(1.)))));
    let ray = Ray::new(v(0., 0., 0.), v(0., 0., -1.));
    let pass = ScatterDraw { offset: v(0., 0., 0.), chance: fx(0.999999) };
    let draws = vec![pass, pass, pass];
    // In at the front, out at the back, on into the sky at the horizon.
    assert_eq!(Camera::ray_color_with(&ray, 3, &world, &draws, 0), v(0.75, 0.85, 1.));
}

#[test]
fn ray_color_is_one_of_the_outcomes_of_its_draws() {
    let mut world = HittableList::new();
    world.push(Sphere::new(
        v(0., 0., -1.),
        fx(0.5),
        Material::Metal(Metal::new(Color::new(fx(0.8), fx(0.6), fx(0.2)), fx(0.))),
    ));
    let ray = Ray::new(v(0., 0., 0.), v(0., 0., -1.));
    // A perfect mirror leaves nothing to chance.
    let expected = Camera::ray_color_with(&ray, 4, &world, &vec![no_draw(); 4], 0);
    assert_eq!(expected, v(0.8 * 0.75, 0.6 * 0.85, 0.2));
    for _ in 0..20 {
        assert_eq!(Camera::ray_color(&ray, 4, &world), expected);
    }
}

#[test]
fn render_gives_one_pixel_for_each_place() {
    let world = two_spheres();
    let mut camera = camera_at_origin(6);
    camera.aspect_ratio = fx(2.);
    camera.samples_per_pixel = 2;
    camera.max_depth = 3;
    let image = camera.render(&world);
    assert_eq!(image.width, 6);
    assert_eq!(image.height, 3);
    assert_eq!(image.pixels.len(), 18);
    assert_eq!(camera.image_height(), 3);
    assert_eq!(camera.samples_per_pixel, 2);
    assert_eq!(camera.max_depth, 3);
}

#[test]
fn render_of_nothing_shows_the_sky() {
    let world: HittableList<Sphere> = HittableList::new();
    let mut camera = camera_at_origin(5);
    camera.samples_per_pixel = 3;
    let image = camera.render(&world);
    assert_eq!(image.pixels.len(), 25);
    for (k, pixel) in image.pixels.iter().enumerate() {
        // Blue is full everywhere; red and green fall toward the top.
        assert_eq!(pixel.b, 255, "pixel {}", k);
        assert!(pixel.r < pixel.g && pixel.g < pixel.b);
    }
    let top = image.pixels[2];
    let bottom = image.pixels[22];
    assert!(top.r < bottom.r);
}

#[test]
fn render_with_no_width_gives_no_pixels() {
    let world = two_spheres();
    let mut camera = camera_at_origin(0);
    camera.samples_per_pixel = 1;
    let image = camera.render(&world);
    assert_eq!(image.width, 0);
    assert_eq!(image.height, 1);
    assert!(image.pixels.is_empty());
    assert_eq!(String::from_utf8(image.to_ppm()).expect("ascii"), "P3\n0 1\n255\n");
}

#[test]
fn pixel_is_the_mean_of_its_samples() {
    let world: HittableList<Sphere> = HittableList::new();
    let mut camera = camera_at_origin(1);
    camera.samples_per_pixel = 4;
    camera.initialise();
    // One pixel that looks at the horizon: the sky there is about (0.75, 0.85, 1).
    let pixel = camera.pixel(0, 0, &world);
    assert_eq!(pixel.b, 255);
    assert!((pixel.r as i32 - 221).abs() <= 25, "red {}", pixel.r);
    assert!((pixel.g as i32 - 236).abs() <= 15, "green {}", pixel.g);
}

#[test]
fn top_row_is_nearer_to_sky_blue_than_the_center_row() {
    let world = two_spheres();
    let mut camera = camera_at_origin(16);
    camera.samples_per_pixel = 1;
    camera.max_depth = 1;
    let image = camera.render(&world);
    assert_eq!(image.width, 16);
    assert_eq!(image.height, 16);
    let sky_blue = [0.5 * 255., 0.7 * 255., 1.0 * 255.];
    let distance = |p: &Pixel| -> f64 {
        let d = [p.r as f64 - sky_blue[0], p.g as f64 - sky_blue[1], p.b as f64 - sky_blue[2]];
        (d[0] * d[0] + d[1] * d[1] + d[2] * d[2]).sqrt()
    };
    let row = |j: usize| -> f64 { image.pixels[j * 16..(j + 1) * 16].iter().map(distance).sum::<f64>() / 16. };
    let top = row(0);
    let center = row(8);
    assert!(top < center, "top {} center {}", top, center);
    // With one bounce the sphere in the middle of the picture is black.
    assert_eq!(image.pixels[8 * 16 + 8], Pixel { r: 0, g: 0, b: 0 });
    // The top row is sky: full blue.
    for pixel in &image.pixels[0..16] {
        assert_eq!(pixel.b, 255);
    }
}

#[test]
fn rendered_picture_is_written_as_a_pixmap() {
    let world = two_spheres();
    let mut camera = camera_at_origin(2);
    camera.aspect_ratio = fx(2.);
    camera.samples_per_pixel = 1;
    camera.max_depth = 2;
    let image = camera.render(&world);
    let text = String::from_utf8(image.to_ppm()).expect("ascii");
    let lines: Vec<&str> = text.lines().collect();
    assert_eq!(lines.len(), 3 + 2);
    assert_eq!(lines[0], "P3");
    assert_eq!(lines[1], "2 1");
    assert_eq!(lines[2], "255");
    for line in &lines[3..] {
        let numbers: Vec<i64> = line.split(' ').map(|n| n.parse().expect("a number")).collect();
        assert_eq!(numbers.len(), 3);
        assert!(numbers.iter().all(|n| 0 <= *n && *n <= 255));
    }
}

#[test]
fn shadow_gap_keeps_a_ray_off_the_surface_it_starts_on() {
    let mut world = HittableList::new();
    world.push(Sphere::new(v(0., 0., -1.), fx(0.5), matt(1., 1., 1.)));
    // A ray that starts on the sphere and leaves it along the normal sees the sky.
    let ray = Ray::new(v(0., 0., -0.5), v(0., 0., 1.));
    assert_eq!(Camera::ray_color_with(&ray, 1, &world, &vec![no_draw()], 0), v(0.75, 0.85, 1.));
}

#[test]
fn settings_are_checked() {
    let mut camera = Camera::new();
    assert!(camera.settings_valid());
    camera.samples_per_pixel = 0;
    assert!(!camera.settings_valid());
    camera.samples_per_pixel = 1;
    camera.max_depth = -1;
    assert!(!camera.settings_valid());
    camera.max_depth = 0;
    assert!(camera.settings_valid());
    camera.fov = fx(0.);
    assert!(!camera.settings_valid());
    camera.fov = fx(180.);
    assert!(!camera.settings_valid());
    camera.fov = fx(179.999999);
    assert!(camera.settings_valid());
    camera.image_width = 0;
    assert!(!camera.settings_valid());
    camera.image_width = 1;
    camera.aspect_ratio = fx(0.);
    assert!(!camera.settings_valid());
    camera.aspect_ratio = fx(0.000001);
    camera.defocus_angle = fx(-0.000001);
    assert!(!camera.settings_valid());
    camera.defocus_angle = fx(0.);
    camera.focus_dist = fx(0.);
    assert!(!camera.settings_valid());
    camera.focus_dist = fx(0.000001);
    assert!(camera.settings_valid());
}

#[test]
fn a_scene_of_every_material_renders() {
    let mut world = HittableList::new();
    world.push(Sphere::new(v(0., -1000., 0.), fx(1000.), matt(0.5, 0.5, 0.5)));
    for a in -3i32..3 {
        for b in -3i32..3 {
            let center = v(a as f64 + 0.45, 0.2, b as f64 + 0.45);
            let material = match (a + b).rem_euclid(3) {
                0 => matt(0.8, 0.3, 0.2),
                1 => Material::Metal(Metal::new(Color::new(fx(0.7), fx(0.6), fx(0.5)), fx(0.25))),
                _ => Material::Dielectric(Dielectric::new(fx(1.5))),
            };
            world.push(Sphere::new(center, fx(0.2), material));
        }
    }
    world.push(Sphere::new(v(0., 1., 0.), fx(1.), Material::Dielectric(Dielectric::new(fx(1.5)))));
    world.push(Sphere::new(v(-4., 1., 0.), fx(1.), matt(0.4, 0.2, 0.1)));
    world.push(Sphere::new(
        v(4., 1., 0.),
        fx(1.),
        Material::Metal(Metal::new(Color::new(fx(0.7), fx(0.6), fx(0.5)), fx(0.))),
    ));
    let mut camera = Camera::new();
    camera.aspect_ratio = Fixed::ratio(16, 9);
    camera.image_width = 48;
    camera.samples_per_pixel = 8;
    camera.max_depth = 10;
    camera.fov = fx(20.);
    camera.lookfrom = v(13., 2., 3.);
    camera.lookat = v(0., 0., 0.);
    camera.up = v(0., 1., 0.);
    camera.defocus_angle = fx(0.6);
    camera.focus_dist = fx(10.);
    assert!(camera.settings_valid());
    let image = camera.render(&world);
    assert_eq!(image.width, 48);
    assert_eq!(image.height, 27);
    assert_eq!(image.pixels.len(), 48 * 27);
    // The sky fills the top left corner; the ground, lit by the sky, the bottom.
    let corner = image.pixels[0];
    assert!(corner.b > 200 && corner.r > 100, "corner {:?}", corner);
    let ground = image.pixels[26 * 48 + 24];
    assert!(ground.r > 20 && ground.r < 250, "ground {:?}", ground);
    // The picture is no flat colour.
    let mut kinds = std::collections::HashSet::new();
    for pixel in &image.pixels {
        kinds.insert((pixel.r, pixel.g, pixel.b));
    }
    assert!(kinds.len() > 100, "{} colours", kinds.len());
    // The matt sphere on the left is brown: more red than blue.
    let mut brown = 0;
    for pixel in &image.pixels {
        if pixel.r > pixel.b + 30 && pixel.r > pixel.g {
            brown += 1;
        }
    }
    assert!(brown > 5, "{} brown pixels", brown);
}

#[test]
fn a_matt_sphere_under_the_sky_is_lit() {
    let world = two_spheres();
    let mut camera = camera_at_origin(9);
    camera.samples_per_pixel = 64;
    camera.max_depth = 10;
    let image = camera.render(&world);
    // The middle of the picture shows the sphere: grey, darker than the sky and
    // not black.
    let middle = image.pixels[4 * 9 + 4];
    assert!(middle.r > 60 && middle.r < 240, "middle {:?}", middle);
    assert!(middle.b >= middle.r);
    let top = image.pixels[4];
    assert_eq!(top.b, 255);
}
