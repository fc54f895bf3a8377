use cgmath::{InnerSpace, Vector3};
use raytracer::image::{pixel, quantize, scale, Rgb};
use raytracer::integrator::{color, first_hit, sky_blue, Event, Outcome};
use raytracer::materials::{
    refract, Dielectric, Lambertian, Material, Metal, Refraction, Side,
};
use raytracer::ppm::encode;
use raytracer::sampling::{in_unit_disk, in_unit_sphere};
use raytracer::scalar::Scalar;
use raytracer::scene::{validate_basis, validate, Sphere};
use raytracer::util::{Crossing, HitableList, Ray, Vec3};

type Vector = Vector3<f32>;

fn scalar(x: f32) -> Scalar {
    Scalar::from_bits(x.to_bits())
}

fn number(s: Scalar) -> f32 {
    f32::from_bits(s.to_bits())
}

fn triple(v: Vector) -> Vec3 {
    Vec3::new(scalar(v.x), scalar(v.y), scalar(v.z))
}

fn vector(v: Vec3) -> Vector {
    Vector3::new(number(v.x), number(v.y), number(v.z))
}

struct Stream {
    state: u32,
}

impl Stream {
    fn draw(&mut self) -> f32 {
        self.state = self.state.wrapping_mul(1664525).wrapping_add(1013904223);
        (self.state >> 8) as f32 / 16777216.0
    }
}

struct Camera {
    lower_left_corner: Vector,
    horizontal: Vector,
    vertical: Vector,
    origin: Vector,
    lens_radius: f32,
    u: Vector,
    v: Vector,
}

fn camera(lookfrom: Vector, lookat: Vector, vup: Vector, aspect: f32, aperture: f32) -> Camera {
    let half_height = 1.0;
    let half_width = aspect * half_height;
    let focus_dist = 1.0;
    let view = lookfrom - lookat;
    let w = view.normalize();
    let side = vup.cross(w);
    assert_eq!(validate_basis(scalar(view.magnitude()), scalar(side.magnitude())), Ok(()));
    let u = side.normalize();
    let v = w.cross(u);
    Camera {
        lower_left_corner: lookfrom
            - half_width * focus_dist * u
            - half_height * focus_dist * v
            - focus_dist * w,
        horizontal: 2. * half_width * focus_dist * u,
        vertical: 2. * half_height * focus_dist * v,
        origin: lookfrom,
        lens_radius: aperture / 2.,
        u,
        v,
    }
}

fn random_in_unit_disk(random: &mut Stream) -> Vector {
    loop {
        let p = 2.0 * Vector::new(random.draw(), random.draw(), 0.) - Vector::new(1., 1., 0.);
        if in_unit_disk(scalar(p.dot(p))) {
            return p;
        }
    }
}

fn random_in_unit_sphere(random: &mut Stream) -> Vector {
    loop {
        let p = 2.0 * Vector::new(random.draw(), random.draw(), random.draw())
            - Vector::new(1., 1., 1.);
        if in_unit_sphere(scalar(p.magnitude2())) {
            return p;
        }
    }
}

fn get_ray(camera: &Camera, s: f32, t: f32, random: &mut Stream) -> Ray {
    let rd = camera.lens_radius * random_in_unit_disk(random);
    let offset = camera.u * rd.x + camera.v * rd.y;
    Ray::new(
        triple(camera.origin + offset),
        triple(
            camera.lower_left_corner + s * camera.horizontal + t * camera.vertical
                - camera.origin
                - offset,
        ),
    )
}

fn crossing(sphere: &Sphere, ray: &Ray) -> Crossing {
    let direction = vector(ray.direction());
    let radius = number(sphere.radius);
    let oc = vector(ray.origin()) - vector(sphere.center);
    let a = direction.dot(direction);
    let b = 2.0 * oc.dot(direction);
    let c = oc.dot(oc) - radius * radius;
    let discriminant = b * b - 4.0 * a * c;
    let minus = (-b - discriminant.sqrt()) / (2.0 * a);
    let plus = (-b + discriminant.sqrt()) / (2.0 * a);
    Crossing::new(scalar(discriminant), scalar(minus), scalar(plus))
}

fn reflect(v: Vector, n: Vector) -> Vector {
    v - 2.0 * (v.dot(n)) * n
}

fn schlick(cosine: f32, ref_idx: f32) -> f32 {
    let r0 = ((1. - ref_idx) / (1. + ref_idx)).powi(2);
    r0 + (1. - r0) * (1. - cosine).powi(5)
}

fn scatter(
    material: Material,
    incoming: Vector,
    p: Vector,
    normal: Vector,
    random: &mut Stream,
) -> Option<(Vec3, Ray)> {
    match material {
        Material::Lambertian(lambertian) => {
            let target = p + normal + random_in_unit_sphere(random);
            lambertian.scatter(triple(p), triple(target - p))
        }
        Material::Metal(metal) => {
            let reflected = reflect(incoming.normalize(), normal);
            let direction = reflected + number(metal.fuzz) * random_in_unit_sphere(random);
            metal.scatter(triple(p), triple(direction), scalar(direction.dot(normal)))
        }
        Material::Dielectric(dielectric) => {
            let ref_idx = number(dielectric.ref_idx);
            let reflected = reflect(incoming, normal);
            let facing = incoming.dot(normal);
            let interface = dielectric.interface(scalar(facing), triple(normal));
            let outward = vector(interface.outward_normal);
            let ni_over_nt = if interface.invert_index { 1.0 / ref_idx } else { ref_idx };
            let cosine = match interface.side {
                Side::Exiting => ref_idx * facing / incoming.magnitude(),
                Side::Entering => -facing / incoming.magnitude(),
            };
            let uv = incoming.normalize();
            let dt = uv.dot(outward);
            let discriminant = 1.0 - ni_over_nt * ni_over_nt * (1.0 - dt * dt);
            let candidate = ni_over_nt * (uv - outward * dt) - outward * discriminant.sqrt();
            let refraction = refract(scalar(discriminant), triple(candidate)).map(|direction| {
                Refraction {
                    direction,
                    reflect_prob: scalar(schlick(cosine, ref_idx)),
                    draw: scalar(random.draw()),
                }
            });
            dielectric.scatter(triple(p), triple(reflected), refraction)
        }
    }
}

fn trace(ray: &Ray, world: &[Sphere], depth: i32, random: &mut Stream) -> Vector {
    let crossings = world.iter().map(|sphere| crossing(sphere, ray)).collect();
    let event = match first_hit(&HitableList::new(crossings)) {
        Some(hit) => {
            let sphere = &world[hit.member];
            let p = vector(ray.origin()) + number(hit.t) * vector(ray.direction());
            let normal = (p - vector(sphere.center)) / number(sphere.radius);
            Event::at_surface(scatter(sphere.material, vector(ray.direction()), p, normal, random))
        }
        None => Event::Escaped,
    };
    match color(depth, event) {
        Outcome::Sky => {
            let t = 0.5 * (vector(ray.direction()).normalize().y + 1.0);
            (1.0 - t) * vector(Vec3::one()) + t * vector(sky_blue())
        }
        Outcome::Black => vector(Vec3::zero()),
        Outcome::Bounce { attenuation, ray, depth } => {
            let attenuation = vector(attenuation);
            let col = trace(&ray, world, depth, random);
            Vector::new(attenuation.x * col.x, attenuation.y * col.y, attenuation.z * col.z)
        }
    }
}

fn render(nx: u32, ny: u32, ns: u32, camera: &Camera, world: &[Sphere], seed: u32) -> Vec<Rgb> {
    let mut random = Stream { state: seed };
    let mut pixels = Vec::new();
    let mut index: u64 = 0;
    while let Some((i, j)) = pixel(index, nx, ny) {
        let mut col = Vector::new(0., 0., 0.);
        for _ in 0..ns {
            let u: f32 = (i as f32 + random.draw()) / (nx as f32);
            let v: f32 = (j as f32 + random.draw()) / (ny as f32);
            let ray = get_ray(camera, u, v, &mut random);
            col += trace(&ray, world, 0, &mut random);
        }
        col /= ns as f32;
        col = Vector::new(col.x.sqrt(), col.y.sqrt(), col.z.sqrt());
        pixels.push(Rgb {
            r: quantize(scalar(number(scale()) * col.x)),
            g: quantize(scalar(number(scale()) * col.y)),
            b: quantize(scalar(number(scale()) * col.z)),
        });
        index += 1;
    }
    pixels
}

fn two_spheres() -> Vec<Sphere> {
    let grey = Material::Lambertian(Lambertian { albedo: triple(Vector::new(0.5, 0.5, 0.5)) });
    vec![
        Sphere::new(triple(Vector::new(0., 0., -1.)), scalar(0.5), grey),
        Sphere::new(triple(Vector::new(0., -100.5, -1.)), scalar(100.), grey),
    ]
}

fn four_spheres() -> Vec<Sphere> {
    let ground = Material::Lambertian(Lambertian { albedo: triple(Vector::new(0.8, 0.8, 0.0)) });
    let matte = Material::Lambertian(Lambertian { albedo: triple(Vector::new(0.1, 0.2, 0.5)) });
    let metal = Material::Metal(Metal {
        albedo: triple(Vector::new(0.8, 0.6, 0.2)),
        fuzz: scalar(0.3),
    });
    let glass = Material::Dielectric(Dielectric { ref_idx: scalar(1.5) });
    vec![
        Sphere::new(triple(Vector::new(0., -100.5, -1.)), scalar(100.), ground),
        Sphere::new(triple(Vector::new(0., 0., -1.)), scalar(0.5), matte),
        Sphere::new(triple(Vector::new(1., 0., -1.)), scalar(0.5), metal),
        Sphere::new(triple(Vector::new(-1., 0., -1.)), scalar(0.5), glass),
        Sphere::new(triple(Vector::new(-1., 0., -1.)), scalar(-0.45), glass),
    ]
}

fn default_camera() -> Camera {
    camera(Vector::new(0., 0., 0.), Vector::new(0., 0., -1.), Vector::new(0., 1., 0.), 2.0, 0.0)
}

#[test]
fn another_seed_gives_another_image_of_the_same_size() {
    let world = two_spheres();
    let first = render(4, 2, 8, &default_camera(), &world, 2024);
    let other = render(4, 2, 8, &default_camera(), &world, 7);
    assert_eq!(other.len(), 8);
    assert_ne!(first, other);
}

#[test]
fn sky_alone_is_a_gradient_that_needs_no_draw_to_shade() {
    let world = vec![Sphere::new(
        triple(Vector::new(0., 0., 50.)),
        scalar(1.0),
        Material::Lambertian(Lambertian { albedo: triple(Vector::new(0.5, 0.5, 0.5)) }),
    )];
    let mut random = Stream { state: 1 };
    let up = Ray::new(triple(Vector::new(0., 0., 0.)), triple(Vector::new(0., 1., 0.)));
    assert_eq!(trace(&up, &world, 0, &mut random), Vector::new(0.5, 0.7, 1.0));
    assert_eq!(trace(&up, &world, 50, &mut random), Vector::new(0.5, 0.7, 1.0));
    let down = Ray::new(triple(Vector::new(0., 0., 0.)), triple(Vector::new(0., -1., 0.)));
    assert_eq!(trace(&down, &world, 0, &mut random), Vector::new(1.0, 1.0, 1.0));
    assert_eq!(random.state, 1);
}

#[test]
fn ray_that_scatters_at_depth_fifty_is_black_and_at_forty_nine_is_not() {
    let world = two_spheres();
    let ray = Ray::new(triple(Vector::new(0., 0., 0.)), triple(Vector::new(0., 0., -1.)));
    let mut random = Stream { state: 99 };
    assert_eq!(trace(&ray, &world, 50, &mut random), Vector::new(0., 0., 0.));
    let mut found_light = false;
    for seed in 0..20 {
        let mut random = Stream { state: seed };
        let col = trace(&ray, &world, 49, &mut random);
        if col != Vector::new(0., 0., 0.) {
            found_light = true;
        }
    }
    assert!(found_light);
}

#[test]
fn matte_metal_and_glass_render_to_the_same_pixels_from_the_same_seed() {
    let world = four_spheres();
    assert_eq!(validate(&world), Ok(()));
    let first = render(6, 3, 16, &default_camera(), &world, 31337);
    let second = render(6, 3, 16, &default_camera(), &world, 31337);
    assert_eq!(first, second);
    let text = String::from_utf8(encode(6, 3, &first).expect("a file")).expect("text");
    assert_eq!(
        text,
        "P3\n6 3\n255\n\
         205 227 255\n199 223 255\n201 224 255\n196 219 251\n187 204 219\n196 209 214\n\
         190 212 169\n213 230 247\n88 117 143\n71 97 123\n149 146 72\n165 161 70\n\
         170 195 0\n165 188 0\n92 112 0\n92 112 0\n141 148 0\n160 168 0\n"
    );
}

#[test]
fn two_spheres_render_to_the_same_pixels_from_the_same_seed() {
    let world = two_spheres();
    assert_eq!(validate(&world), Ok(()));
    let first = render(4, 2, 8, &default_camera(), &world, 2024);
    let second = render(4, 2, 8, &default_camera(), &world, 2024);
    assert_eq!(first.len(), 8);
    assert_eq!(first, second);
    let text = String::from_utf8(encode(4, 2, &first).expect("a file")).expect("text");
    assert_eq!(
        text,
        "P3\n4 2\n255\n210 229 255\n178 195 217\n197 219 247\n212 230 255\n\
         159 177 202\n124 138 156\n127 142 161\n146 166 191\n"
    );
}
