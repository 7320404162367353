use raytracer::path::{Path, Probe};

#[test]
fn no_bounce_is_black_before_any_ray() {
    assert_eq!(Path::start(0), Path::Black);
}

#[test]
fn no_bounce_stays_black_whatever_is_found() {
    for found in [Probe::Miss, Probe::Absorbed, Probe::Scattered] {
        assert_eq!(Path::start(0).step(found), Path::Black);
        assert_eq!(Path::Tracing { bounces: 0 }.step(found), Path::Black);
    }
}

#[test]
fn a_fresh_path_traces_with_all_its_bounces() {
    assert_eq!(Path::start(1), Path::Tracing { bounces: 1 });
    assert_eq!(Path::start(50), Path::Tracing { bounces: 50 });
    assert_eq!(Path::start(usize::MAX), Path::Tracing { bounces: usize::MAX });
}

#[test]
fn a_miss_ends_in_the_background() {
    assert_eq!(Path::start(50).step(Probe::Miss), Path::Sky);
    assert_eq!(Path::start(1).step(Probe::Miss), Path::Sky);
}

#[test]
fn an_absorbed_ray_ends_black() {
    assert_eq!(Path::start(50).step(Probe::Absorbed), Path::Black);
    assert_eq!(Path::start(1).step(Probe::Absorbed), Path::Black);
}

#[test]
fn a_scattered_ray_goes_on_with_one_bounce_fewer() {
    assert_eq!(Path::start(50).step(Probe::Scattered), Path::Tracing { bounces: 49 });
    assert_eq!(Path::start(2).step(Probe::Scattered), Path::Tracing { bounces: 1 });
    assert_eq!(Path::start(50).step(Probe::Scattered), Path::start(49));
}

#[test]
fn the_last_bounce_ends_black() {
    assert_eq!(Path::start(1).step(Probe::Scattered), Path::Black);
}

#[test]
fn an_ended_path_stays_as_it_is() {
    for found in [Probe::Miss, Probe::Absorbed, Probe::Scattered] {
        assert_eq!(Path::Sky.step(found), Path::Sky);
        assert_eq!(Path::Black.step(found), Path::Black);
    }
}

#[test]
fn a_path_traces_no_more_rays_than_it_has_bounces() {
    for bounces in 0..60usize {
        let mut path = Path::start(bounces);
        let mut traced = 0;
        while let Path::Tracing { .. } = path {
            path = path.step(Probe::Scattered);
            traced += 1;
        }
        assert_eq!(traced, bounces);
        assert_eq!(path, Path::Black);
    }
}

#[test]
fn a_miss_after_some_bounces_still_ends_in_the_background() {
    let path = Path::start(50)
        .step(Probe::Scattered)
        .step(Probe::Scattered)
        .step(Probe::Scattered);
    assert_eq!(path, Path::Tracing { bounces: 47 });
    assert_eq!(path.step(Probe::Miss), Path::Sky);
    assert_eq!(path.step(Probe::Miss).step(Probe::Absorbed), Path::Sky);
}
