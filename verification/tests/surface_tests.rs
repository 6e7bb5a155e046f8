use point_sim::surface::{
    choose_alpha_mode, clamp_surface_size, refresh_millihertz, surface_action, AlphaMode,
    SurfaceAction, SurfaceStatus, DEFAULT_REFRESH_MILLIHERTZ,
};

#[test]
fn surface_size_is_at_least_one_pixel() {
    assert_eq!(clamp_surface_size(0, 0), (1, 1));
    assert_eq!(clamp_surface_size(0, 600), (1, 600));
    assert_eq!(clamp_surface_size(800, 0), (800, 1));
    assert_eq!(clamp_surface_size(1920, 1080), (1920, 1080));
}

#[test]
fn opaque_window_uses_auto_alpha() {
    let all = [AlphaMode::Opaque, AlphaMode::PreMultiplied, AlphaMode::PostMultiplied];
    assert_eq!(choose_alpha_mode(false, &all), AlphaMode::Auto);
}

#[test]
fn transparent_window_takes_last_blending_mode() {
    let all = [AlphaMode::Opaque, AlphaMode::PreMultiplied, AlphaMode::PostMultiplied, AlphaMode::Inherit];
    assert_eq!(choose_alpha_mode(true, &all), AlphaMode::PostMultiplied);
    let pre = [AlphaMode::PreMultiplied, AlphaMode::Opaque];
    assert_eq!(choose_alpha_mode(true, &pre), AlphaMode::PreMultiplied);
    let none = [AlphaMode::Opaque, AlphaMode::Inherit];
    assert_eq!(choose_alpha_mode(true, &none), AlphaMode::Auto);
    assert_eq!(choose_alpha_mode(true, &[]), AlphaMode::Auto);
}

#[test]
fn surface_status_actions() {
    assert_eq!(surface_action(SurfaceStatus::Success), SurfaceAction::Draw);
    assert_eq!(surface_action(SurfaceStatus::Timeout), SurfaceAction::Skip);
    assert_eq!(surface_action(SurfaceStatus::Occluded), SurfaceAction::Skip);
    assert_eq!(surface_action(SurfaceStatus::Suboptimal), SurfaceAction::Reconfigure);
    assert_eq!(surface_action(SurfaceStatus::Outdated), SurfaceAction::Reconfigure);
    assert_eq!(surface_action(SurfaceStatus::Lost), SurfaceAction::Recreate);
}

#[test]
fn refresh_falls_back_to_sixty_hertz() {
    assert_eq!(refresh_millihertz(None), 60_000);
    assert_eq!(DEFAULT_REFRESH_MILLIHERTZ, 60_000);
    assert_eq!(refresh_millihertz(Some(144_000)), 144_000);
    assert_eq!(refresh_millihertz(Some(59_940)), 59_940);
}
