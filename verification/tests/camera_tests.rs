use tracer::camera::Camera;
use tracer::color::channel_byte;
use tracer::color::linear_to_gamma;
use tracer::color::push_decimal;
use tracer::color::write_color;
use tracer::hittable_list::HittableList;
use tracer::material::AnyMaterial;
use tracer::material::Dielectric;
use tracer::material::Lambertian;
use tracer::material::Metal;
use tracer::ray::Ray;
use tracer::rng::Rng;
use tracer::scalar::Scalar;
use tracer::sphere::Sphere;
use tracer::vec3::Vec3;

fn whole(x: i32, y: i32, z: i32) -> Vec3<Scalar> {
    Vec3::new(Scalar::from_int(x), Scalar::from_int(y), Scalar::from_int(z))
}

fn raw(x: i64, y: i64, z: i64) -> Vec3<Scalar> {
    Vec3::new(Scalar::from_raw(x), Scalar::from_raw(y), Scalar::from_raw(z))
}

fn fixed(x: f64) -> Scalar {
    Scalar::from_raw((x * 4294967296.0) as i64)
}

fn grey_ball() -> HittableList<Sphere> {
    let grey = Vec3::new(Scalar::from_ratio(1, 2), Scalar::from_ratio(1, 2), Scalar::from_ratio(1, 2));
    HittableList::from(Sphere::new(
        whole(0, 0, -1),
        Scalar::from_ratio(1, 2),
        AnyMaterial::Lambertian(Lambertian::new(grey)),
    ))
}

fn four_balls() -> HittableList<Sphere> {
    let mut world = HittableList::new();
    world.add(Sphere::new(
        whole(0, 0, -1),
        Scalar::from_ratio(1, 2),
        AnyMaterial::Lambertian(Lambertian::new(Vec3::new(
            Scalar::from_ratio(1, 10),
            Scalar::from_ratio(1, 5),
            Scalar::from_ratio(1, 2),
        ))),
    ));
    world.add(Sphere::new(
        Vec3::new(Scalar::zero(), fixed(-100.5), Scalar::from_int(-1)),
        Scalar::from_int(100),
        AnyMaterial::Lambertian(Lambertian::new(Vec3::new(
            Scalar::from_ratio(4, 5),
            Scalar::from_ratio(4, 5),
            Scalar::zero(),
        ))),
    ));
    world.add(Sphere::new(
        whole(-1, 0, -1),
        Scalar::from_ratio(1, 2),
        AnyMaterial::Dielectric(Dielectric::new(Scalar::from_ratio(3, 2))),
    ));
    world.add(Sphere::new(
        whole(1, 0, -1),
        Scalar::from_ratio(1, 2),
        AnyMaterial::Metal(Metal::new(
            Vec3::new(Scalar::from_ratio(4, 5), Scalar::from_ratio(3, 5), Scalar::from_ratio(1, 5)),
            Scalar::from_ratio(3, 10),
        )),
    ));
    world
}

#[test]
fn bright_channel_is_clamped_and_dark_channel_is_zero() {
    assert_eq!(channel_byte(fixed(1.2)), 255);
    assert_eq!(channel_byte(fixed(-0.1)), 0);
    assert_eq!(channel_byte(Scalar::zero()), 0);
    assert_eq!(channel_byte(Scalar::one()), 255);
    assert_eq!(channel_byte(Scalar::infinity()), 255);
    assert_eq!(channel_byte(Scalar::from_ratio(1, 4)), 128);
    assert_eq!(channel_byte(Scalar::from_ratio(1, 2)), 181);
}

#[test]
fn gamma_is_the_square_root_of_what_light_there_is() {
    assert_eq!(linear_to_gamma(Scalar::from_ratio(1, 4)), Scalar::from_ratio(1, 2));
    assert_eq!(linear_to_gamma(fixed(1.2)).raw, 4704900943);
    assert_eq!(linear_to_gamma(fixed(-0.1)), Scalar::zero());
    assert_eq!(linear_to_gamma(Scalar::zero()), Scalar::zero());
}

#[test]
fn pixel_is_written_as_three_decimal_bytes() {
    let pixel = Vec3::new(fixed(1.2), fixed(-0.1), Scalar::from_ratio(1, 4));
    assert_eq!(write_color(&pixel), "255 0 128\n");
    let pixel = Vec3::new(Scalar::one(), Scalar::from_ratio(1, 2), Scalar::zero());
    assert_eq!(write_color(&pixel), "255 181 0\n");
    assert_eq!(tracer::write_color(&whole(0, 0, 0)), "0 0 0\n");
}

#[test]
fn numbers_are_written_in_decimal() {
    let mut text = String::from("n=");
    push_decimal(&mut text, 0);
    text.push(',');
    push_decimal(&mut text, 7);
    text.push(',');
    push_decimal(&mut text, 10);
    text.push(',');
    push_decimal(&mut text, 1200);
    text.push(',');
    push_decimal(&mut text, 4294967295);
    assert_eq!(text, "n=0,7,10,1200,4294967295");
    assert_eq!(Camera::header(400, 225), "P3\n400 225\n255\n");
}

#[test]
fn new_camera_has_the_default_settings() {
    let camera = Camera::new();
    assert_eq!(camera.aspect_ratio, Scalar::zero());
    assert_eq!(camera.image_width, 0);
    assert_eq!(camera.samples_per_pixel, 1);
    assert_eq!(camera.max_depth, 10);
    assert_eq!(camera.vfov, Scalar::from_int(90));
    assert_eq!(camera.lookfrom, whole(0, 0, 0));
    assert_eq!(camera.lookat, whole(0, 0, -1));
    assert_eq!(camera.vup, whole(0, 1, 0));
    assert_eq!(camera.defocus_angle, Scalar::zero());
    assert_eq!(camera.focus_dist, Scalar::from_int(10));
}

#[test]
fn viewport_is_derived_from_the_settings() {
    let mut camera = Camera::new();
    camera.aspect_ratio = Scalar::from_int(16) / Scalar::from_int(9);
    camera.image_width = 400;
    camera.initialize();
    assert_eq!(camera.image_height, 225);
    assert_eq!(camera.pixel_samples_scale, Scalar::one());
    assert_eq!(camera.centre, whole(0, 0, 0));
    assert_eq!(camera.w, whole(0, 0, 1));
    assert_eq!(camera.u, whole(1, 0, 0));
    assert_eq!(camera.v, whole(0, 1, 0));
    assert_eq!(camera.pixel_delta_u, raw(381774870, 0, 0));
    assert_eq!(camera.pixel_delta_v, raw(0, -381774870, 0));
    assert_eq!(camera.pixel_00_origin_loc, raw(-76164086680, 42758785505, -42949672960));
    assert_eq!(camera.defocus_disk_u, whole(0, 0, 0));
    assert_eq!(camera.defocus_disk_v, whole(0, 0, 0));
    let once = camera;
    camera.initialize();
    assert_eq!(camera, once);
}

#[test]
fn image_is_at_least_one_pixel_high() {
    let mut camera = Camera::new();
    camera.aspect_ratio = Scalar::from_int(1000);
    camera.image_width = 10;
    camera.initialize();
    assert_eq!(camera.image_height, 1);
    let mut camera = Camera::new();
    camera.initialize();
    assert_eq!(camera.image_height, 1);
    assert_eq!(camera.pixel_delta_u, whole(0, 0, 0));
    assert_eq!(camera.pixel_00_origin_loc, whole(0, 0, -10));
}

#[test]
fn lens_is_derived_from_the_defocus_angle() {
    let mut camera = Camera::new();
    camera.aspect_ratio = Scalar::one();
    camera.image_width = 3;
    camera.vfov = Scalar::from_int(40);
    camera.lookfrom = whole(-2, 2, 1);
    camera.lookat = whole(0, 0, -1);
    camera.defocus_angle = Scalar::from_int(10);
    camera.focus_dist = fixed(3.4);
    camera.initialize();
    assert_eq!(camera.image_height, 3);
    assert_eq!(camera.defocus_disk_u, raw(903390583, 0, 903390583));
    assert_eq!(camera.defocus_disk_v, raw(521572796, 1043145593, -521572796));
}

#[test]
fn sample_ray_aims_through_its_pixel() {
    let mut camera = Camera::new();
    camera.aspect_ratio = Scalar::from_int(2);
    camera.image_width = 8;
    camera.initialize();
    let mut rng = Rng::new(42);
    let ray = camera.get_ray(1, 3, &mut rng);
    assert_eq!(*ray.origin(), whole(0, 0, 0));
    assert_eq!(*ray.direction(), raw(-9272183131, 16633046208, -42949672960));
    assert_eq!(rng.state, 4159066171780167020);
    let mut rng = Rng::new(42);
    let offset = Camera::sample_square(&mut rng);
    assert!(-2147483648 <= offset.x().raw && offset.x().raw < 2147483648);
    assert!(-2147483648 <= offset.y().raw && offset.y().raw < 2147483648);
    assert_eq!(offset.z().raw, 0);
    assert_eq!(rng.state, 4159066171780167020);
}

#[test]
fn lens_sample_lies_on_the_lens() {
    let mut camera = Camera::new();
    camera.aspect_ratio = Scalar::one();
    camera.image_width = 3;
    camera.defocus_angle = Scalar::from_int(10);
    camera.initialize();
    let radius = camera.defocus_disk_u.mag();
    let mut seed = 0;
    while seed < 100 {
        let mut rng = Rng::new(seed);
        let p = camera.defocus_disk_sample(&mut rng);
        assert!((p - camera.centre).mag().raw <= radius.raw + 4);
        seed += 1;
    }
}

#[test]
fn sky_runs_from_white_to_blue() {
    let up = Ray::new(whole(0, 0, 0), whole(0, 1, 0));
    let down = Ray::new(whole(0, 0, 0), whole(0, -1, 0));
    let level = Ray::new(whole(0, 0, 0), whole(1, 0, 0));
    assert_eq!(Camera::sky(&up), raw(2147483648, 3006477107, 4294967296));
    assert_eq!(Camera::sky(&down), whole(1, 1, 1));
    assert_eq!(Camera::sky(&level), raw(3221225472, 3650722201, 4294967296));
}

#[test]
fn ray_without_bounces_left_is_black() {
    let world = grey_ball();
    let mut rng = Rng::new(5);
    let at_ball = Ray::new(whole(0, 0, 0), whole(0, 0, -1));
    let at_sky = Ray::new(whole(0, 0, 0), whole(0, 1, 0));
    assert_eq!(Camera::ray_color(&at_ball, 0, &world, &mut rng), whole(0, 0, 0));
    assert_eq!(Camera::ray_color(&at_sky, 0, &world, &mut rng), whole(0, 0, 0));
    assert_eq!(rng.state, 5);
    assert_eq!(Camera::ray_color(&at_ball, 1, &world, &mut rng), whole(0, 0, 0));
    assert_ne!(rng.state, 5);
    assert_eq!(Camera::ray_color(&at_sky, 1, &world, &mut rng), raw(2147483648, 3006477107, 4294967296));
}

#[test]
fn bounce_off_a_matte_ball_takes_half_the_light() {
    let world = grey_ball();
    let at_ball = Ray::new(whole(0, 0, 0), whole(0, 0, -1));
    let mut seed = 0;
    while seed < 50 {
        let mut rng = Rng::new(seed);
        let light = Camera::ray_color(&at_ball, 50, &world, &mut rng);
        assert!(light.x().raw <= 2147483648);
        assert!(light.y().raw <= 2147483648);
        assert!(light.z().raw <= 2147483648);
        assert!(light.z().raw > 0);
        seed += 1;
    }
}

#[test]
fn one_ball_renders_to_a_known_image() {
    let mut camera = Camera::new();
    camera.aspect_ratio = Scalar::from_int(2);
    camera.image_width = 8;
    camera.samples_per_pixel = 1;
    camera.max_depth = 1;
    let mut rng = Rng::new(42);
    let image = camera.render(&grey_ball(), &mut rng);
    assert_eq!(camera.image_height, 4);
    assert_eq!(
        image,
        "P3\n8 4\n255\n206 227 255\n206 227 255\n196 222 255\n196 222 255\n194 221 255\n201 224 255\n205 226 255\n208 228 255\n212 230 255\n218 234 255\n213 231 255\n0 0 0\n0 0 0\n216 233 255\n216 233 255\n215 232 255\n228 239 255\n231 241 255\n235 243 255\n0 0 0\n0 0 0\n233 242 255\n224 237 255\n228 240 255\n235 243 255\n235 243 255\n239 246 255\n245 249 255\n241 247 255\n238 245 255\n236 244 255\n236 244 255\n"
    );
    let mut again = Camera::new();
    again.aspect_ratio = Scalar::from_int(2);
    again.image_width = 8;
    again.samples_per_pixel = 1;
    again.max_depth = 1;
    let mut rng = Rng::new(42);
    assert_eq!(again.render(&grey_ball(), &mut rng), image);
    let mut rng = Rng::new(43);
    assert_ne!(again.render(&grey_ball(), &mut rng), image);
}

#[test]
fn four_balls_render_to_a_known_image() {
    let mut camera = Camera::new();
    camera.aspect_ratio = Scalar::from_int(2);
    camera.image_width = 6;
    camera.samples_per_pixel = 3;
    camera.max_depth = 4;
    let mut rng = Rng::new(7);
    let image = camera.render(&four_balls(), &mut rng);
    assert_eq!(
        image,
        "P3\n6 3\n255\n164 178 147\n194 217 209\n165 191 233\n169 191 209\n202 225 255\n208 228 255\n218 234 255\n217 233 255\n110 135 0\n61 95 104\n140 135 66\n168 162 66\n186 204 0\n155 180 147\n156 175 0\n177 188 0\n129 123 0\n124 120 0\n"
    );
    assert_eq!(rng.state, 6404835155682368961);
}

#[test]
fn camera_with_a_lens_renders_to_a_known_image() {
    let mut camera = Camera::new();
    camera.aspect_ratio = Scalar::one();
    camera.image_width = 3;
    camera.samples_per_pixel = 2;
    camera.max_depth = 3;
    camera.vfov = Scalar::from_int(40);
    camera.lookfrom = whole(-2, 2, 1);
    camera.lookat = whole(0, 0, -1);
    camera.defocus_angle = Scalar::from_int(10);
    camera.focus_dist = fixed(3.4);
    let mut rng = Rng::new(2024);
    let image = camera.render(&four_balls(), &mut rng);
    assert_eq!(
        image,
        "P3\n3 3\n255\n169 195 0\n175 198 0\n186 177 114\n170 195 0\n132 144 0\n124 140 0\n0 0 0\n136 147 0\n173 197 0\n"
    );
    assert_eq!(rng.state, 11787967603884176015);
}

#[test]
fn image_is_its_header_and_its_rows() {
    let mut camera = Camera::new();
    camera.aspect_ratio = Scalar::from_int(2);
    camera.image_width = 4;
    camera.samples_per_pixel = 2;
    camera.max_depth = 3;
    let world = four_balls();
    let mut rng = Rng::new(1);
    let image = camera.render(&world, &mut rng);
    let mut rng = Rng::new(1);
    let mut pieced = Camera::header(4, 2);
    pieced.push_str(&camera.row_text(&world, 0, &mut rng));
    let mut second = String::new();
    second.push_str(&camera.pixel_text(&world, 1, 0, &mut rng));
    second.push_str(&camera.pixel_text(&world, 1, 1, &mut rng));
    second.push_str(&camera.pixel_text(&world, 1, 2, &mut rng));
    second.push_str(&camera.pixel_text(&world, 1, 3, &mut rng));
    pieced.push_str(&second);
    assert_eq!(image, pieced);
    assert_eq!(image.lines().count(), 3 + 8);
    let mut rng = Rng::new(1);
    assert_eq!(camera.image_text(&world, &mut rng), image);
    let mut rng = Rng::new(1);
    let mut joined = Camera::header(4, 2);
    joined.push_str(&camera.rows_text(&world, &mut rng));
    assert_eq!(joined, image);
}

#[test]
fn basis_of_a_camera_close_to_what_it_looks_at_is_orthonormal() {
    let mut camera = Camera::new();
    camera.aspect_ratio = Scalar::one();
    camera.image_width = 2;
    camera.lookfrom = raw(65536, 65536, 0);
    camera.lookat = whole(0, 0, 0);
    camera.initialize();
    assert_eq!(camera.w, raw(3037000501, 3037000501, 0));
    assert_eq!(camera.u, whole(0, 0, -1));
    assert_eq!(camera.v, raw(-3037000500, 3037000500, 0));
    for axis in [camera.u, camera.v, camera.w] {
        assert!((axis.mag().raw - 4294967296).abs() <= 4);
    }
    assert!(camera.u.dot(&camera.w).raw.abs() <= 32);
    assert!(camera.v.dot(&camera.w).raw.abs() <= 32);
    assert!(camera.v.dot(&camera.u).raw.abs() <= 32);
}

#[test]
fn basis_of_a_camera_far_from_what_it_looks_at_is_orthonormal() {
    let mut camera = Camera::new();
    camera.aspect_ratio = Scalar::one();
    camera.image_width = 2;
    camera.lookfrom = whole(13, 2, 3);
    camera.lookat = whole(0, 0, 0);
    camera.initialize();
    assert_eq!(camera.w, raw(4138734045, 636728314, 955092471));
    assert_eq!(camera.u, raw(965764226, 0, -4184978319));
    assert_eq!(camera.v, raw(-620422463, 4247507637, -143174414));
    for axis in [camera.u, camera.v, camera.w] {
        assert!((axis.mag().raw - 4294967296).abs() <= 4);
    }
    assert!(camera.u.dot(&camera.w).raw.abs() <= 32);
    assert!(camera.v.dot(&camera.w).raw.abs() <= 32);
    assert!(camera.v.dot(&camera.u).raw.abs() <= 32);
}

#[test]
fn pinhole_camera_has_no_lens() {
    let mut camera = Camera::new();
    camera.aspect_ratio = Scalar::from_int(2);
    camera.image_width = 8;
    camera.initialize();
    assert_eq!(camera.defocus_disk_u, whole(0, 0, 0));
    assert_eq!(camera.defocus_disk_v, whole(0, 0, 0));
    let mut rng = Rng::new(3);
    assert_eq!(camera.defocus_disk_sample(&mut rng), camera.centre);
}
