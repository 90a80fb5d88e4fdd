use raytracer::color::Color;
use raytracer::fixed::Fixed;
use raytracer::hit_record::HitRecord;
use raytracer::hittable::Hittable;
use raytracer::hittable_list::HittableList;
use raytracer::interval::Interval;
use raytracer::lambertian::Lambertian;
use raytracer::material::Material;
use raytracer::metal::Metal;
use raytracer::ray::Ray;
use raytracer::sphere::Sphere;
use raytracer::vec3::Vec3;

fn fx(x: f64) -> Fixed {
    Fixed::from_raw((x * 1_000_000.0).round() as i64)
}

fn v(a: f64, b: f64, c: f64) -> Vec3 {
    Vec3::new(fx(a), fx(b), fx(c))
}

fn matt(r: f64, g: f64, b: f64) -> Material {
    Material::Lambertian(Lambertian::new(Color::new(fx(r), fx(g), fx(b))))
}

fn ball(x: f64, y: f64, z: f64, radius: f64) -> Sphere {
    Sphere::new(v(x, y, z), fx(radius), matt(0.5, 0.5, 0.5))
}

fn ahead() -> Interval {
    Interval { min: fx(0.001), max: Fixed::max_value() }
}

fn albedo_of(rec: &HitRecord) -> Color {
    match rec.material {
        Material::Lambertian(m) => m.albedo(),
        Material::Metal(m) => m.albedo(),
        Material::Dielectric(_) => Color::new(fx(1.), fx(1.), fx(1.)),
    }
}

#[test]
fn sphere_keeps_what_it_was_made_with() {
    let s = Sphere::new(v(1., 2., 3.), fx(0.5), matt(0.1, 0.2, 0.3));
    assert_eq!(s.center(), v(1., 2., 3.));
    assert_eq!(s.radius(), fx(0.5));
    match s.material() {
        Material::Lambertian(m) => assert_eq!(m.albedo(), v(0.1, 0.2, 0.3)),
        _ => panic!("wrong material"),
    }
}

#[test]
fn ray_through_center_hits_at_nearer_root() {
    let s = ball(0., 0., -1., 0.5);
    let ray = Ray::new(v(0., 0., 0.), v(0., 0., -1.));
    let rec = s.hit(&ray, &ahead()).expect("hit");
    assert_eq!(rec.t, fx(0.5));
    assert_eq!(rec.point, v(0., 0., -0.5));
    assert_eq!(rec.normal, v(0., 0., 1.));
    assert!(rec.front_face);
    assert_eq!(albedo_of(&rec), v(0.5, 0.5, 0.5));
}

#[test]
fn roots_are_symmetric_about_the_middle() {
    // Near root 0.5, far root 1.5, both about -half_b / a = 1.
    let s = ball(0., 0., -1., 0.5);
    let ray = Ray::new(v(0., 0., 0.), v(0., 0., -1.));
    let near = s.hit(&ray, &ahead()).expect("near").t;
    let far = s.hit(&ray, &Interval { min: near, max: Fixed::max_value() }).expect("far").t;
    assert_eq!(near, fx(0.5));
    assert_eq!(far, fx(1.5));
    assert_eq!(near + far, fx(2.));
}

#[test]
fn roots_are_symmetric_for_a_longer_direction() {
    // Direction of length 3: roots 1/6 and 1/2 about 1/3, up to rounding.
    let s = ball(0., 0., -1., 0.5);
    let ray = Ray::new(v(0., 0., 0.), v(0., 0., -3.));
    let near = s.hit(&ray, &ahead()).expect("near").t;
    let far = s.hit(&ray, &Interval { min: near, max: Fixed::max_value() }).expect("far").t;
    assert_eq!(near.count(), 166_666);
    assert_eq!(far.count(), 500_000);
    let twice_mid = 2 * 333_333;
    assert!((near.count() + far.count() - twice_mid).abs() <= 3);
}

#[test]
fn far_root_is_taken_when_the_near_one_is_outside_the_interval() {
    let s = ball(0., 0., -1., 0.5);
    let ray = Ray::new(v(0., 0., 0.), v(0., 0., -1.));
    let rec = s.hit(&ray, &Interval { min: fx(0.6), max: fx(100.) }).expect("hit");
    assert_eq!(rec.t, fx(1.5));
    assert_eq!(rec.point, v(0., 0., -1.5));
    // The ray leaves the sphere: the outward normal (0, 0, -1) is turned about.
    assert!(!rec.front_face);
    assert_eq!(rec.normal, v(0., 0., 1.));
}

#[test]
fn a_root_on_the_bound_of_the_interval_does_not_count() {
    let s = ball(0., 0., -1., 0.5);
    let ray = Ray::new(v(0., 0., 0.), v(0., 0., -1.));
    let rec = s.hit(&ray, &Interval { min: fx(0.5), max: fx(100.) }).expect("hit");
    assert_eq!(rec.t, fx(1.5));
    assert!(s.hit(&ray, &Interval { min: fx(0.5), max: fx(1.5) }).is_none());
    assert!(s.hit(&ray, &Interval { min: fx(0.001), max: fx(0.5) }).is_none());
    assert!(s.hit(&ray, &Interval { min: fx(1.5), max: fx(100.) }).is_none());
}

#[test]
fn ray_beside_the_sphere_misses() {
    let s = ball(0., 0., -1., 0.5);
    let ray = Ray::new(v(0., 0., 0.), v(0., 1., 0.));
    assert!(s.hit(&ray, &ahead()).is_none());
    let ray = Ray::new(v(0., 0.51, 0.), v(0., 0., -1.));
    assert!(s.hit(&ray, &ahead()).is_none());
}

#[test]
fn ray_leaving_the_sphere_from_outside_misses() {
    let s = ball(0., 0., -1., 0.5);
    for direction in [v(0., 0., 1.), v(0.3, 0.2, 1.), v(1., 0., 0.), v(0., -1., 0.5)] {
        let ray = Ray::new(v(0., 0., 0.), direction);
        assert!(s.hit(&ray, &ahead()).is_none());
        assert!(s.hit(&ray, &Interval { min: fx(0.), max: Fixed::max_value() }).is_none());
    }
}

#[test]
fn an_interval_below_zero_finds_the_sphere_behind_the_ray() {
    let s = ball(0., 0., -1., 0.5);
    let ray = Ray::new(v(0., 0., 0.), v(0., 0., 1.));
    let rec = s.hit(&ray, &Interval::universe()).expect("hit behind");
    assert_eq!(rec.t, fx(-1.5));
}

#[test]
fn ray_without_direction_hits_nothing() {
    let s = ball(0., 0., -1., 0.5);
    let ray = Ray::new(v(0., 0., -1.), v(0., 0., 0.));
    assert!(s.hit(&ray, &Interval::universe()).is_none());
    assert!(s.hit(&ray, &ahead()).is_none());
}

#[test]
fn ray_from_inside_meets_the_back_face() {
    let s = ball(0., 0., 0., 2.);
    let ray = Ray::new(v(0., 0., 0.), v(1., 0., 0.));
    let rec = s.hit(&ray, &ahead()).expect("hit");
    assert_eq!(rec.t, fx(2.));
    assert_eq!(rec.point, v(2., 0., 0.));
    assert!(!rec.front_face);
    assert_eq!(rec.normal, v(-1., 0., 0.));
}

#[test]
fn stored_normal_never_points_along_the_ray() {
    let s = ball(0.3, -0.2, -2., 0.7);
    let origins = [v(0., 0., 0.), v(0.3, -0.2, -2.), v(0.5, 0., -1.9), v(3., 3., 3.)];
    let directions = [v(0., 0., -1.), v(0.1, -0.1, -1.), v(-1., -1., -1.7), v(0.2, 0., 1.), v(1., 0.5, 0.)];
    for o in origins {
        for d in directions {
            let ray = Ray::new(o, d);
            if let Some(rec) = s.hit(&ray, &ahead()) {
                let outward = (rec.point - s.center()) / s.radius();
                assert_eq!(rec.front_face, d.dot(outward).count() < 0);
                assert!((-d).dot(rec.normal).count() >= 0);
            }
        }
    }
}

#[test]
fn face_normal_follows_the_side() {
    let m = matt(0.5, 0.5, 0.5);
    let ray = Ray::new(v(0., 0., 0.), v(0., 0., -1.));
    let mut rec = HitRecord::new(v(0., 0., -1.), fx(1.), &m);
    assert_eq!(rec.normal, v(0., 0., 0.));
    assert!(!rec.front_face);
    assert_eq!(rec.t, fx(1.));
    assert_eq!(rec.point, v(0., 0., -1.));
    rec.set_face_normal(&ray, &v(0., 0., 1.));
    assert!(rec.front_face);
    assert_eq!(rec.normal, v(0., 0., 1.));
    rec.set_face_normal(&ray, &v(0., 0., -1.));
    assert!(!rec.front_face);
    assert_eq!(rec.normal, v(0., 0., 1.));
    // A ray along the surface counts as coming from behind.
    rec.set_face_normal(&ray, &v(1., 0., 0.));
    assert!(!rec.front_face);
    assert_eq!(rec.normal, v(-1., 0., 0.));
}

#[test]
fn empty_list_hits_nothing() {
    let world: HittableList<Sphere> = HittableList::new();
    assert_eq!(world.len(), 0);
    let ray = Ray::new(v(0., 0., 0.), v(0., 0., -1.));
    assert!(world.hit(&ray, &ahead()).is_none());
}

#[test]
fn list_returns_the_nearest_hit_in_any_order() {
    let ray = Ray::new(v(0., 0., 0.), v(0., 0., -1.));
    let centers = [-5., -1., -9., -3.];
    let orders: [[usize; 4]; 4] = [[0, 1, 2, 3], [3, 2, 1, 0], [1, 0, 3, 2], [2, 3, 0, 1]];
    for order in orders {
        let mut world = HittableList::new();
        for k in order {
            world.push(Sphere::new(v(0., 0., centers[k]), fx(0.5), matt(0.1 * (k as f64 + 1.), 0., 0.)));
        }
        assert_eq!(world.len(), 4);
        let rec = world.hit(&ray, &ahead()).expect("hit");
        // The sphere at z = -1 is nearest: it is met at t = 0.5.
        assert_eq!(rec.t, fx(0.5));
        assert_eq!(rec.point, v(0., 0., -0.5));
        assert_eq!(albedo_of(&rec), v(0.2, 0., 0.));
    }
}

#[test]
fn list_hit_is_the_minimum_of_the_single_hits() {
    let spheres = [(0.4, 0.1, -3., 1.), (-0.2, 0., -1.5, 0.3), (0., 0., -7., 2.), (2., 2., -2., 0.5)];
    let rays = [
        Ray::new(v(0., 0., 0.), v(0., 0., -1.)),
        Ray::new(v(0., 0., 0.), v(0.1, 0.02, -1.)),
        Ray::new(v(0., 0., 0.), v(1., 1., -1.)),
        Ray::new(v(0., 0., 0.), v(0., 1., 0.)),
        Ray::new(v(0., 0., -4.), v(0., 0., 1.)),
    ];
    for ray in &rays {
        let mut world = HittableList::new();
        let mut best: Option<Fixed> = None;
        for (x, y, z, r) in spheres {
            let s = ball(x, y, z, r);
            if let Some(rec) = s.hit(ray, &ahead()) {
                if best.map_or(true, |b| rec.t.lt(b)) {
                    best = Some(rec.t);
                }
            }
            world.push(s);
        }
        assert_eq!(world.hit(ray, &ahead()).map(|rec| rec.t), best);
    }
}

#[test]
fn among_equally_near_members_the_first_wins() {
    let ray = Ray::new(v(0., 0., 0.), v(0., 0., -1.));
    let mut world = HittableList::new();
    world.push(Sphere::new(v(0., 0., -1.), fx(0.5), matt(0.9, 0., 0.)));
    world.push(Sphere::new(v(0., 0., -1.), fx(0.5), matt(0., 0.9, 0.)));
    let rec = world.hit(&ray, &ahead()).expect("hit");
    assert_eq!(albedo_of(&rec), v(0.9, 0., 0.));
}

#[test]
fn cleared_list_hits_nothing() {
    let ray = Ray::new(v(0., 0., 0.), v(0., 0., -1.));
    let mut world = HittableList::new();
    world.push(ball(0., 0., -1., 0.5));
    assert!(world.hit(&ray, &ahead()).is_some());
    world.clear();
    assert_eq!(world.len(), 0);
    assert!(world.hit(&ray, &ahead()).is_none());
}

#[test]
fn list_of_lists_is_hit_as_one() {
    let ray = Ray::new(v(0., 0., 0.), v(0., 0., -1.));
    let mut near = HittableList::new();
    near.push(ball(0., 0., -2., 0.5));
    let mut far = HittableList::new();
    far.push(ball(0., 0., -9., 0.5));
    far.push(ball(0., 0., -5., 0.5));
    let mut world = HittableList::new();
    world.push(far);
    world.push(near);
    let rec = world.hit(&ray, &ahead()).expect("hit");
    assert_eq!(rec.t, fx(1.5));
}

#[test]
fn list_keeps_the_material_of_the_member_hit() {
    let ray = Ray::new(v(0., 0., 0.), v(0., 0., -1.));
    let mut world = HittableList::new();
    world.push(Sphere::new(v(0., 0., -5.), fx(0.5), matt(0.1, 0.1, 0.1)));
    world.push(Sphere::new(
        v(0., 0., -2.),
        fx(0.5),
        Material::Metal(Metal::new(Color::new(fx(0.7), fx(0.6), fx(0.5)), fx(0.))),
    ));
    let rec = world.hit(&ray, &ahead()).expect("hit");
    match rec.material {
        Material::Metal(m) => {
            assert_eq!(m.albedo(), v(0.7, 0.6, 0.5));
            assert_eq!(m.fuzz(), fx(0.));
        },
        _ => panic!("wrong material"),
    }
}

#[test]
fn large_sphere_is_hit_where_expected() {
    // The ground of the classic scene: radius 1000 about (0, -1000, 0).
    let ground = ball(0., -1000., 0., 1000.);
    let ray = Ray::new(v(0., 1., 0.), v(0., -1., 0.));
    let rec = ground.hit(&ray, &ahead()).expect("hit");
    assert_eq!(rec.t, fx(1.));
    assert_eq!(rec.point, v(0., 0., 0.));
    assert_eq!(rec.normal, v(0., 1., 0.));
    assert!(rec.front_face);
}
