use vivid::{
    ensure_size_action, resize_action, surface_action, SizeAction, SurfaceAction, SurfaceStatus,
};

#[test]
fn textures_are_drawn_even_when_suboptimal() {
    assert_eq!(surface_action(SurfaceStatus::Success), SurfaceAction::Draw);
    assert_eq!(surface_action(SurfaceStatus::Suboptimal), SurfaceAction::Draw);
}

#[test]
fn missing_textures_skip_the_frame() {
    assert_eq!(surface_action(SurfaceStatus::Timeout), SurfaceAction::Skip);
    assert_eq!(surface_action(SurfaceStatus::Occluded), SurfaceAction::Skip);
    assert_eq!(surface_action(SurfaceStatus::Validation), SurfaceAction::Skip);
}

#[test]
fn outdated_surface_is_reconfigured_and_lost_device_fails() {
    assert_eq!(surface_action(SurfaceStatus::Outdated), SurfaceAction::Reconfigure);
    assert_eq!(surface_action(SurfaceStatus::Lost), SurfaceAction::Fail);
}

#[test]
fn zero_sized_windows_leave_the_surface_unconfigured() {
    assert_eq!(resize_action(0, 600), SizeAction::Unconfigure);
    assert_eq!(resize_action(800, 0), SizeAction::Unconfigure);
    assert_eq!(resize_action(800, 600), SizeAction::Configure(800, 600));
}

#[test]
fn ensure_size_only_acts_on_a_change() {
    assert_eq!(ensure_size_action(true, 800, 600, 800, 600), SizeAction::Keep);
    assert_eq!(
        ensure_size_action(false, 800, 600, 800, 600),
        SizeAction::Configure(800, 600)
    );
    assert_eq!(
        ensure_size_action(true, 800, 600, 1024, 768),
        SizeAction::Configure(1024, 768)
    );
    assert_eq!(ensure_size_action(true, 800, 600, 0, 768), SizeAction::Unconfigure);
}

#[test]
fn a_second_size_request_settles() {
    // Carry out the first request, then ask again for the same size.
    let first = ensure_size_action(false, 0, 0, 640, 480);
    assert_eq!(first, SizeAction::Configure(640, 480));
    assert_eq!(ensure_size_action(true, 640, 480, 640, 480), SizeAction::Keep);
}

#[test]
fn the_first_srgb_format_is_picked() {
    assert_eq!(vivid::pick_format(&vec![false, true, true]), 1);
    assert_eq!(vivid::pick_format(&vec![true, false]), 0);
}

#[test]
fn without_srgb_the_first_format_is_picked() {
    assert_eq!(vivid::pick_format(&vec![false, false]), 0);
}
