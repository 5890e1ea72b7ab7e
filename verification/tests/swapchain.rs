use gpu_core::swapchain::{
    swapchain_config, Surface, SwapChain, COLOR_SPACE_SRGB_NONLINEAR, EXTENT_UNDETERMINED,
    FORMAT_B8G8R8A8_UNORM, FORMAT_R8G8B8A8_SRGB, PRESENT_MODE_IMMEDIATE, PRESENT_MODE_MAILBOX,
    TRANSFORM_IDENTITY,
};

fn surface() -> Surface {
    Surface {
        max_image_count: 8,
        current_width: 1580,
        current_height: 820,
        supported_transforms: TRANSFORM_IDENTITY,
        current_transform: TRANSFORM_IDENTITY,
        formats: vec![(50, 0), (FORMAT_R8G8B8A8_SRGB, 0), (FORMAT_R8G8B8A8_SRGB, 1)],
        present_modes: vec![2, PRESENT_MODE_MAILBOX],
        handle: 0,
    }
}

#[test]
fn preferred_format_and_mailbox_are_picked_when_offered() {
    let cfg = swapchain_config(3, &surface(), 640, 480);
    assert_eq!(cfg.image_count, 3);
    // The first offered pair with the preferred format wins.
    assert_eq!(cfg.format, FORMAT_R8G8B8A8_SRGB);
    assert_eq!(cfg.color_space, 0);
    assert_eq!(cfg.width, 1580);
    assert_eq!(cfg.height, 820);
    assert_eq!(cfg.pre_transform, TRANSFORM_IDENTITY);
    assert_eq!(cfg.present_mode, PRESENT_MODE_MAILBOX);
}

#[test]
fn fallback_format_and_immediate_mode_apply_when_nothing_preferred_is_offered() {
    let mut s = surface();
    s.formats = vec![(50, 0), (44, 3)];
    s.present_modes = vec![2, 0];
    let cfg = swapchain_config(3, &s, 640, 480);
    assert_eq!(cfg.format, FORMAT_B8G8R8A8_UNORM);
    assert_eq!(cfg.color_space, COLOR_SPACE_SRGB_NONLINEAR);
    assert_eq!(cfg.present_mode, PRESENT_MODE_IMMEDIATE);
}

#[test]
fn image_count_is_clamped_by_the_surface_maximum() {
    let mut s = surface();
    s.max_image_count = 2;
    let cfg = swapchain_config(3, &s, 640, 480);
    assert_eq!(cfg.image_count, 2);
}

#[test]
fn an_undetermined_surface_extent_defers_to_the_window() {
    let mut s = surface();
    s.current_width = EXTENT_UNDETERMINED;
    let cfg = swapchain_config(3, &s, 640, 480);
    assert_eq!(cfg.width, 640);
    assert_eq!(cfg.height, 480);
}

#[test]
fn an_unsupported_identity_transform_keeps_the_current_one() {
    let mut s = surface();
    s.supported_transforms = 0b100;
    s.current_transform = 0b100;
    let cfg = swapchain_config(3, &s, 640, 480);
    assert_eq!(cfg.pre_transform, 0b100);
}

#[test]
fn frame_semas_pairs_each_slot_with_its_counters() {
    let cfg = swapchain_config(3, &surface(), 640, 480);
    let chain = SwapChain::new(cfg, 3);
    assert_eq!(chain.acquire_semas.len(), 3);
    assert_eq!(chain.present_semas.len(), 3);
    let (acq, present) = chain.frame_semas(2);
    assert_eq!(acq.counter, 0);
    assert_eq!(present.counter, 0);
}
