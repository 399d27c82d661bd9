use pathtracer::tracer::{next_bounce, Bounce, Surface};

#[test]
fn exhausted_depth_is_black_whatever_the_scene() {
    for s in [Surface::Miss, Surface::Absorbed, Surface::Scattered] {
        assert_eq!(next_bounce(0, s), Bounce::Black);
    }
}

#[test]
fn miss_shows_the_sky() {
    assert_eq!(next_bounce(1, Surface::Miss), Bounce::Sky);
    assert_eq!(next_bounce(50, Surface::Miss), Bounce::Sky);
}

#[test]
fn absorbed_ray_is_black() {
    assert_eq!(next_bounce(7, Surface::Absorbed), Bounce::Black);
}

#[test]
fn scattered_ray_is_followed_with_one_bounce_less() {
    assert_eq!(next_bounce(1, Surface::Scattered), Bounce::Follow { depth: 0 });
    assert_eq!(next_bounce(50, Surface::Scattered), Bounce::Follow { depth: 49 });
    assert_eq!(next_bounce(u32::MAX, Surface::Scattered), Bounce::Follow { depth: u32::MAX - 1 });
}

#[test]
fn a_path_that_always_scatters_ends_after_its_budget() {
    let mut depth = 5u32;
    let mut followed = 0;
    loop {
        match next_bounce(depth, Surface::Scattered) {
            Bounce::Follow { depth: d } => {
                depth = d;
                followed += 1;
            }
            end => {
                assert_eq!(end, Bounce::Black);
                break;
            }
        }
    }
    assert_eq!(followed, 5);
}
