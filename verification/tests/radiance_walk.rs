use raytracer::trace::{radiance_step, RadianceStep, SurfaceEvent};

#[test]
fn exhausted_budget_emits_black_for_every_event() {
    for event in [
        SurfaceEvent::Scattered,
        SurfaceEvent::Absorbed,
        SurfaceEvent::Missed,
    ] {
        assert_eq!(radiance_step(50, 50, event), RadianceStep::Black);
        assert_eq!(radiance_step(51, 50, event), RadianceStep::Black);
    }
}

#[test]
fn scattered_ray_bounces_below_the_cap() {
    assert_eq!(radiance_step(1, 50, SurfaceEvent::Scattered), RadianceStep::Bounce);
    assert_eq!(radiance_step(49, 50, SurfaceEvent::Scattered), RadianceStep::Bounce);
}

#[test]
fn absorbed_ray_emits_black() {
    assert_eq!(radiance_step(1, 50, SurfaceEvent::Absorbed), RadianceStep::Black);
}

#[test]
fn missed_ray_emits_the_background() {
    assert_eq!(radiance_step(1, 50, SurfaceEvent::Missed), RadianceStep::Background);
}

#[test]
fn zero_budget_never_bounces() {
    assert_eq!(radiance_step(0, 0, SurfaceEvent::Scattered), RadianceStep::Black);
}
