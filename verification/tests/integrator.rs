use path_tracer::integrator::{exhausted, ray_color, step, Bounce, Decision, Radiance, Weight};
use path_tracer::material::{emitted, reflects, scatter, ScatterRecord};

fn all_bounces() -> [Bounce; 4] {
    [Bounce::Miss, Bounce::Absorbed, Bounce::Specular, Bounce::Diffuse]
}

#[test]
fn depth_zero_is_black_whatever_the_scene() {
    for b in all_bounces() {
        assert_eq!(step(0, b), Decision::Return(Radiance::Black));
    }
    assert!(exhausted(0));
    assert!(!exhausted(1));
    assert!(!exhausted(u32::MAX));
}

#[test]
fn miss_gives_the_background() {
    assert_eq!(step(1, Bounce::Miss), Decision::Return(Radiance::Background));
    assert_eq!(step(25, Bounce::Miss), Decision::Return(Radiance::Background));
}

#[test]
fn absorbing_surface_gives_its_emission() {
    assert_eq!(step(1, Bounce::Absorbed), Decision::Return(Radiance::Emitted));
    assert_eq!(step(25, Bounce::Absorbed), Decision::Return(Radiance::Emitted));
}

#[test]
fn scattering_surface_sends_the_path_on_with_one_ray_less() {
    assert_eq!(
        step(25, Bounce::Specular),
        Decision::Scatter { weight: Weight::Attenuation, depth: 24 }
    );
    assert_eq!(
        step(25, Bounce::Diffuse),
        Decision::Scatter { weight: Weight::Importance, depth: 24 }
    );
    assert_eq!(
        step(1, Bounce::Diffuse),
        Decision::Scatter { weight: Weight::Importance, depth: 0 }
    );
    assert_eq!(
        step(u32::MAX, Bounce::Specular),
        Decision::Scatter { weight: Weight::Attenuation, depth: u32::MAX - 1 }
    );
}

#[test]
fn path_of_mirrors_ends_black_after_its_budget() {
    let mut depth = 5;
    let mut traced = 0;
    let closing = loop {
        match step(depth, Bounce::Specular) {
            Decision::Return(r) => break r,
            Decision::Scatter { depth: rest, .. } => {
                traced += 1;
                depth = rest;
            }
        }
    };
    assert_eq!(closing, Radiance::Black);
    assert_eq!(traced, 5);
}

#[test]
fn path_closes_at_the_first_light() {
    let scene = [Bounce::Diffuse, Bounce::Specular, Bounce::Absorbed, Bounce::Diffuse];
    let mut depth = 10;
    let mut at = 0;
    let closing = loop {
        match step(depth, scene[at]) {
            Decision::Return(r) => break r,
            Decision::Scatter { depth: rest, .. } => {
                at += 1;
                depth = rest;
            }
        }
    };
    assert_eq!(closing, Radiance::Emitted);
    assert_eq!(at, 2);
    assert_eq!(depth, 8);
}

fn record(specular: bool, pdf: bool) -> ScatterRecord<u8, u8, u8> {
    ScatterRecord {
        specular_ray: if specular { Some(1) } else { None },
        attenuation: 2,
        pdf_ptr: if pdf { Some(3) } else { None },
    }
}

#[test]
fn scatter_tells_the_four_answers_apart() {
    assert_eq!(scatter::<u8, u8, u8>(false, &None), Bounce::Miss);
    assert_eq!(scatter(false, &Some(record(true, false))), Bounce::Miss);
    assert_eq!(scatter::<u8, u8, u8>(true, &None), Bounce::Absorbed);
    assert_eq!(scatter(true, &Some(record(true, false))), Bounce::Specular);
    assert_eq!(scatter(true, &Some(record(false, true))), Bounce::Diffuse);
    assert_eq!(scatter(true, &Some(record(true, true))), Bounce::Specular);
}

#[test]
fn light_emits_from_its_front_face_only() {
    assert_eq!(emitted(true, 15, 0), 15);
    assert_eq!(emitted(false, 15, 0), 0);
}

#[test]
fn glass_reflects_on_total_internal_reflection() {
    assert!(reflects(false, false));
    assert!(reflects(false, true));
    assert!(reflects(true, true));
    assert!(!reflects(true, false));
}

/// A path state for the tests: what was gathered so far and what the
/// rays to come are worth.
#[derive(Clone, Copy, Debug, PartialEq)]
struct Walk {
    at: usize,
    gathered: i64,
    worth: i64,
}

fn walk(scene: &[(Bounce, i64)], depth: u32) -> (i64, usize) {
    let looked = std::cell::Cell::new(0usize);
    let look = |state: &Walk| {
        looked.set(looked.get() + 1);
        scene[state.at]
    };
    let go_on = |state: Walk, emitted: i64, weight: Weight| {
        let factor = match weight {
            Weight::Attenuation => 2,
            Weight::Importance => 3,
        };
        Walk {
            at: state.at + 1,
            gathered: state.gathered + state.worth * emitted,
            worth: state.worth * factor,
        }
    };
    let close = |state: Walk, emitted: Option<i64>, radiance: Radiance| match radiance {
        Radiance::Black => state.gathered,
        Radiance::Background => state.gathered + state.worth * 1000,
        Radiance::Emitted => state.gathered + state.worth * emitted.unwrap(),
    };
    let start = Walk { at: 0, gathered: 0, worth: 1 };
    (ray_color(start, depth, &look, &go_on, &close), looked.get())
}

#[test]
fn ray_color_with_depth_zero_is_black_and_looks_at_nothing() {
    let scene = [(Bounce::Absorbed, 7), (Bounce::Miss, 0)];
    assert_eq!(walk(&scene, 0), (0, 0));
}

#[test]
fn ray_color_of_a_miss_is_the_background() {
    assert_eq!(walk(&[(Bounce::Miss, 0)], 5), (1000, 1));
}

#[test]
fn ray_color_of_a_light_is_what_it_emits() {
    assert_eq!(walk(&[(Bounce::Absorbed, 15)], 5), (15, 1));
}

#[test]
fn ray_color_adds_up_along_the_path() {
    // a diffuse surface that emits 1, a mirror that emits nothing, a light
    let scene = [(Bounce::Diffuse, 1), (Bounce::Specular, 0), (Bounce::Absorbed, 10)];
    // 1 + 3 * (0 + 2 * 10)
    assert_eq!(walk(&scene, 5), (61, 3));
    // the same path under the open sky
    let scene = [(Bounce::Diffuse, 1), (Bounce::Specular, 0), (Bounce::Miss, 0)];
    assert_eq!(walk(&scene, 5), (1 + 3 * 2 * 1000, 3));
}

#[test]
fn ray_color_cuts_a_path_off_when_its_budget_is_spent() {
    let scene = [(Bounce::Diffuse, 1), (Bounce::Specular, 4), (Bounce::Absorbed, 10)];
    // two rays: 1 + 3 * 4, and black after that
    assert_eq!(walk(&scene, 2), (13, 2));
    assert_eq!(walk(&scene, 1), (1, 1));
}
