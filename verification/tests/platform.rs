//! Renderers, pictures, dialogs and the event guard.

use windui::config::{Renderer, WindowConfig};
use windui::dialog::EventDispatch;
use windui::event::HotkeyCtx;
use windui::picture_path::child_screenshot_path;
use windui::tray::TrayCtx;

type Config = WindowConfig<fn(&mut TrayCtx<()>), fn(&mut HotkeyCtx)>;

#[test]
fn default_is_software() {
    assert_eq!(Renderer::default(), Renderer::Software);
    assert_eq!(Config::default().renderer, Renderer::Software);
}

#[test]
fn wants_and_requires_gpu_truth_table() {
    assert!(Renderer::Auto.wants_gpu(), "Auto tries the GPU");
    assert!(!Renderer::Auto.requires_gpu(), "Auto may fall back");

    assert!(!Renderer::Software.wants_gpu(), "Software does not try the GPU");
    assert!(!Renderer::Software.requires_gpu());

    assert!(Renderer::Gpu.wants_gpu());
    assert!(Renderer::Gpu.requires_gpu(), "Gpu must not fall back silently");
}

#[test]
fn appends_index_before_extension() {
    assert_eq!(child_screenshot_path("out.png", 1, &['/'], None), "out-1.png");
    assert_eq!(child_screenshot_path("out.png", 2, &['/'], None), "out-2.png");
}

#[test]
fn keeps_parent_directory() {
    let got = child_screenshot_path("artifacts/multi.png", 1, &['/'], None);
    assert_eq!(got, "artifacts/multi-1.png");
}

#[test]
fn defaults_extension_to_png() {
    assert_eq!(child_screenshot_path("shot", 3, &['/'], None), "shot-3.png");
}

#[test]
fn splits_at_last_extension() {
    assert_eq!(child_screenshot_path("v1.2.png", 1, &['/'], None), "v1.2-1.png");
}

#[test]
fn event_dispatch_guard_tracks_state_and_clears_on_drop() {
    let mut dispatch = EventDispatch::new();
    assert!(!dispatch.in_event_dispatch());
    dispatch.enter();
    assert!(dispatch.in_event_dispatch());
    dispatch.leave();
    assert!(!dispatch.in_event_dispatch());
}
