use raytracer::color::Color;
use raytracer::double::Double;
use raytracer::intersection::Roots;
use raytracer::tracer::{finish_or_reflect, trace_ray, Shaded, Traced};

fn double(x: f64) -> Double {
    Double::from_bits(x.to_bits())
}

fn roots(t1: f64, t2: f64) -> Roots {
    (double(t1), double(t2))
}

const INF: f64 = f64::INFINITY;

fn sky() -> Color {
    Color::new(0x10, 0x20, 0x30, 0xff)
}

fn local() -> Color {
    Color::new(0xb2, 0x0d, 0x30, 0xff)
}

#[test]
fn a_scene_without_spheres_shows_the_background() {
    assert_eq!(trace_ray(&vec![], double(1.0), double(INF), sky()), Traced::Background(sky()));
    assert_eq!(trace_ray(&vec![], double(0.001), double(INF), Color::white()), Traced::Background(Color::white()));
    assert_eq!(trace_ray(&vec![], double(5.0), double(-5.0), Color::black()), Traced::Background(Color::black()));
    assert_eq!(trace_ray(&vec![], double(f64::NAN), double(f64::NAN), sky()), Traced::Background(sky()));
}

#[test]
fn a_ray_that_misses_every_sphere_shows_the_background() {
    let all = vec![roots(INF, INF), roots(INF, INF), roots(INF, INF)];
    assert_eq!(trace_ray(&all, double(1.0), double(INF), sky()), Traced::Background(sky()));
}

#[test]
fn spheres_before_the_viewport_are_not_met() {
    let all = vec![roots(0.25, 0.75), roots(-4.0, -2.0), roots(0.5, 3.0)];
    assert_eq!(trace_ray(&all, double(1.0), double(INF), sky()), Traced::Background(sky()));
}

#[test]
fn a_range_upside_down_shows_the_background() {
    let all = vec![roots(3.0, 5.0)];
    assert_eq!(trace_ray(&all, double(4.0), double(2.0), sky()), Traced::Background(sky()));
}

#[test]
fn the_sphere_met_first_is_named_with_its_smaller_root() {
    let all = vec![roots(9.0, 7.0), roots(5.0, 3.0), roots(INF, INF)];
    assert_eq!(
        trace_ray(&all, double(1.0), double(INF), sky()),
        Traced::Hit { sphere: 1, t: double(3.0) }
    );
}

#[test]
fn with_no_reflections_left_the_local_colour_stands() {
    assert_eq!(finish_or_reflect(local(), double(0.5), 0), Shaded::Done(local()));
    assert_eq!(finish_or_reflect(local(), double(1.0), 0), Shaded::Done(local()));
    assert_eq!(finish_or_reflect(local(), double(0.0), 0), Shaded::Done(local()));
    assert_eq!(finish_or_reflect(local(), double(1e9), 0), Shaded::Done(local()));
    assert_eq!(finish_or_reflect(local(), double(f64::NAN), 0), Shaded::Done(local()));
}

#[test]
fn a_surface_that_does_not_mirror_keeps_its_local_colour() {
    assert_eq!(finish_or_reflect(local(), double(0.0), 3), Shaded::Done(local()));
    assert_eq!(finish_or_reflect(local(), double(-0.0), 3), Shaded::Done(local()));
    assert_eq!(finish_or_reflect(local(), double(-0.5), 3), Shaded::Done(local()));
    assert_eq!(finish_or_reflect(local(), double(f64::NEG_INFINITY), 255), Shaded::Done(local()));
}

#[test]
fn a_mirroring_surface_sends_a_ray_with_one_reflection_less() {
    let expected = |depth: u8| Shaded::Reflect {
        local_color: local(),
        depth,
        t_min: double(0.001),
        t_max: double(INF),
    };
    assert_eq!(finish_or_reflect(local(), double(0.5), 3), expected(2));
    assert_eq!(finish_or_reflect(local(), double(1.0), 1), expected(0));
    assert_eq!(finish_or_reflect(local(), double(5e-324), 255), expected(254));
    assert_eq!(finish_or_reflect(local(), double(2.0), 2), expected(1));
}

#[test]
fn a_reflectiveness_that_is_no_number_mirrors() {
    assert_eq!(
        finish_or_reflect(local(), double(f64::NAN), 3),
        Shaded::Reflect { local_color: local(), depth: 2, t_min: double(0.001), t_max: double(INF) }
    );
}
