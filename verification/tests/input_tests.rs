use point_sim::input::{EventResponse, InputState, KeyInput, TouchStage, WindowInput};

fn key(text: &str) -> WindowInput<[f32; 2]> {
    WindowInput::Keyboard { key: KeyInput::Character(text.to_string()), pressed: true }
}

#[test]
fn window_events_map_to_responses() {
    let mut state = InputState::new([0.0f32, 0.0]);
    assert_eq!(state.handle_event(WindowInput::CloseRequested), EventResponse::Exit);
    assert_eq!(state.handle_event(WindowInput::RedrawRequested), EventResponse::Redraw);
    assert_eq!(state.handle_event(WindowInput::Resized), EventResponse::Reconfigure);
    assert_eq!(state.handle_event(WindowInput::Other), EventResponse::Continue);
}

#[test]
fn escape_exits_and_r_reloads() {
    let mut state = InputState::new([0.0f32, 0.0]);
    assert_eq!(
        state.handle_event(WindowInput::Keyboard { key: KeyInput::Escape, pressed: true }),
        EventResponse::Exit
    );
    assert_eq!(state.handle_event(key("r")), EventResponse::Reload);
    assert_eq!(state.handle_event(key("R")), EventResponse::Continue);
    assert_eq!(state.handle_event(key("rr")), EventResponse::Continue);
    assert_eq!(state.handle_event(key("x")), EventResponse::Continue);
    assert_eq!(
        state.handle_event(WindowInput::Keyboard { key: KeyInput::Other, pressed: true }),
        EventResponse::Continue
    );
}

#[test]
fn released_keys_do_nothing() {
    let mut state = InputState::new([0.0f32, 0.0]);
    assert_eq!(
        state.handle_event(WindowInput::Keyboard { key: KeyInput::Escape, pressed: false }),
        EventResponse::Continue
    );
    assert_eq!(
        state.handle_event(WindowInput::Keyboard {
            key: KeyInput::Character("r".to_string()),
            pressed: false
        }),
        EventResponse::Continue
    );
}

#[test]
fn mouse_pushes_while_pressed() {
    let mut state = InputState::new([0.0f32, 0.0]);
    assert!(state.active_inputs().is_empty());
    state.handle_event(WindowInput::CursorMoved([10.0, 20.0]));
    assert!(state.active_inputs().is_empty());
    state.handle_event(WindowInput::MouseButton { pressed: true });
    assert_eq!(state.active_inputs(), vec![[10.0, 20.0]]);
    state.handle_event(WindowInput::CursorMoved([30.0, 40.0]));
    assert_eq!(state.active_inputs(), vec![[30.0, 40.0]]);
    state.handle_event(WindowInput::MouseButton { pressed: false });
    assert!(state.active_inputs().is_empty());
    assert_eq!(state.mouse_pos, [30.0, 40.0]);
}

#[test]
fn touches_are_tracked_by_id() {
    let mut state = InputState::new([0.0f32, 0.0]);
    let t = |id: u64, stage: TouchStage, x: f32| WindowInput::Touch { id, stage, location: [x, x] };
    state.handle_event(t(1, TouchStage::Started, 1.0));
    state.handle_event(t(2, TouchStage::Started, 2.0));
    state.handle_event(t(1, TouchStage::Moved, 3.0));
    let mut inputs = state.active_inputs();
    inputs.sort_by(|a, b| a[0].partial_cmp(&b[0]).unwrap());
    assert_eq!(inputs, vec![[2.0, 2.0], [3.0, 3.0]]);

    state.handle_event(t(2, TouchStage::Ended, 0.0));
    assert_eq!(state.active_inputs(), vec![[3.0, 3.0]]);
    // a cancelled touch is kept
    state.handle_event(t(1, TouchStage::Cancelled, 9.0));
    assert_eq!(state.active_inputs(), vec![[3.0, 3.0]]);
    state.handle_event(t(1, TouchStage::Ended, 9.0));
    assert!(state.active_inputs().is_empty());
    // ending an unknown touch is harmless
    state.handle_event(t(7, TouchStage::Ended, 9.0));
    assert!(state.touch_points.is_empty());
}

#[test]
fn mouse_comes_before_touches() {
    let mut state = InputState::new([5.0f32, 5.0]);
    state.handle_event(WindowInput::Touch { id: 4, stage: TouchStage::Started, location: [1.0, 1.0] });
    state.handle_event(WindowInput::MouseButton { pressed: true });
    let inputs = state.active_inputs();
    assert_eq!(inputs.len(), 2);
    assert_eq!(inputs[0], [5.0, 5.0]);
    assert_eq!(inputs[1], [1.0, 1.0]);
}

#[test]
fn many_touches_each_listed_once() {
    let mut state = InputState::new([0.0f32, 0.0]);
    for id in 0..50u64 {
        state.handle_event(WindowInput::Touch {
            id,
            stage: TouchStage::Started,
            location: [id as f32, 0.0],
        });
    }
    let mut xs: Vec<u64> = state.active_inputs().iter().map(|p| p[0] as u64).collect();
    xs.sort();
    assert_eq!(xs, (0..50).collect::<Vec<u64>>());
}
