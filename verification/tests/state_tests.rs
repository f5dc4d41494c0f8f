use plothole::canvas::{apply_resize, resize_frame, CanvasState};
use plothole::color::Color;
use plothole::function::{apply_input, FunctionCanvasPivot, FunctionValueProvider};

#[test]
fn color_packs_in_rgba_order() {
    assert_eq!(Color::new(10, 20, 30, 40).to_u8_slice(), [10, 20, 30, 40]);
}

#[test]
fn rgb_defaults_alpha_to_opaque() {
    assert_eq!(Color::rgb(10, 20, 30).to_u8_slice(), [10, 20, 30, 255]);
}

#[test]
fn provider_returns_the_wrapped_functions_value() {
    let provider = FunctionValueProvider::new(|x| 2 * x);
    assert_eq!(provider.get(21), 42);
    assert_eq!(provider.get(-3), -6);
    assert_eq!(provider.get(0), 0);
}

#[test]
fn pivot_setters_replace_one_axis() {
    let mut pivot = FunctionCanvasPivot::new(1, 2);
    pivot.x(7);
    assert_eq!((pivot.x, pivot.y), (7, 2));
    pivot.y(-9);
    assert_eq!((pivot.x, pivot.y), (7, -9));
}

#[test]
fn each_key_steps_its_axis_by_five() {
    let mut pivot = FunctionCanvasPivot::new(0, 0);
    apply_input(&mut pivot, true, false, false, false);
    assert_eq!((pivot.x, pivot.y), (5, 0));
    apply_input(&mut pivot, false, true, false, false);
    assert_eq!((pivot.x, pivot.y), (0, 0));
    apply_input(&mut pivot, false, false, true, false);
    assert_eq!((pivot.x, pivot.y), (0, -5));
    apply_input(&mut pivot, false, false, false, true);
    assert_eq!((pivot.x, pivot.y), (0, 0));
    apply_input(&mut pivot, false, false, false, false);
    assert_eq!((pivot.x, pivot.y), (0, 0));
}

#[test]
fn key_priority_moves_exactly_one_axis() {
    let mut pivot = FunctionCanvasPivot::new(0, 0);
    apply_input(&mut pivot, true, true, true, true);
    assert_eq!((pivot.x, pivot.y), (5, 0));
    apply_input(&mut pivot, false, true, true, true);
    assert_eq!((pivot.x, pivot.y), (0, 0));
    apply_input(&mut pivot, false, false, true, true);
    assert_eq!((pivot.x, pivot.y), (0, -5));
}

#[test]
fn pivot_steps_clamp_at_the_i32_bounds() {
    let mut pivot = FunctionCanvasPivot::new(i32::MAX - 2, i32::MIN + 2);
    apply_input(&mut pivot, true, false, false, false);
    assert_eq!(pivot.x, i32::MAX);
    apply_input(&mut pivot, false, false, true, false);
    assert_eq!(pivot.y, i32::MIN);
}

#[test]
fn resize_frame_allocates_four_bytes_per_pixel() {
    let mut frame = vec![9u8; 10];
    resize_frame(&mut frame, 7, 5);
    assert_eq!(frame, vec![0u8; 140]);
}

#[test]
fn apply_resize_takes_only_the_last_notification() {
    let mut state = CanvasState::new(800, 600);
    let mut frame = vec![0u8; 4 * 800 * 600];
    let notifications = vec![(100u32, 100u32), (20u32, 30u32), (40u32, 50u32)];
    apply_resize(&mut state, &mut frame, &notifications);
    assert_eq!((state.width, state.height), (40, 50));
    assert_eq!(frame.len(), 4 * 40 * 50);
}

#[test]
fn apply_resize_without_notification_changes_nothing() {
    let mut state = CanvasState::new(8, 6);
    let mut frame = vec![3u8; 4 * 8 * 6];
    let notifications: Vec<(u32, u32)> = Vec::new();
    apply_resize(&mut state, &mut frame, &notifications);
    assert_eq!((state.width, state.height), (8, 6));
    assert_eq!(frame, vec![3u8; 192]);
}

#[test]
fn canvas_state_setters_update_one_dimension() {
    let mut state = CanvasState::new(1, 2);
    state.set_width(640);
    assert_eq!((state.width, state.height), (640, 2));
    state.set_height(480);
    assert_eq!((state.width, state.height), (640, 480));
}
