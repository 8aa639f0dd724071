use nes_ui::input::{cancel_binding_capture, keyboard_binding_status, BindingCapture};
use nes_ui::gamepad::{
    describe_gamepad_event, direction_label, gamepad_axis_label, gamepad_binding_label,
    gamepad_button_label, GamepadAxis, GamepadBinding, GamepadButton, GamepadEvent,
};
use nes_ui::input::{
    binding_mask, filter_live_dpad, input_mask_label, key_is_controller_binding,
    neutralize_opposite_directions, nes_button_label, set_controller_mask, ControllerState,
    PlayMode, TasFrame,
};

fn opposite_directions() {
    let a_and_start = (1 << 0) | (1 << 3);
    assert_eq!(
        neutralize_opposite_directions(a_and_start | (1 << 6) | (1 << 7)),
        a_and_start
    );
    assert_eq!(
        neutralize_opposite_directions(a_and_start | (1 << 4) | (1 << 5)),
        a_and_start
    );
    assert_eq!(
        neutralize_opposite_directions(a_and_start | (1 << 4) | (1 << 7)),
        a_and_start | (1 << 4) | (1 << 7)
    );
}

#[test]
fn input_opposite_dpad_directions_cancel_without_touching_buttons() {
    opposite_directions();
}

#[test]
fn app_opposite_dpad_directions_cancel_without_touching_buttons() {
    opposite_directions();
}

#[test]
fn neutralizing_twice_changes_nothing_more() {
    for mask in 0..=255u8 {
        let once = neutralize_opposite_directions(mask);
        assert_eq!(neutralize_opposite_directions(once), once);
        assert_eq!(once & 0x0f, mask & 0x0f);
    }
}

#[test]
fn input_masks_are_described_by_button_names() {
    assert_eq!(input_mask_label(0), "—");
    assert_eq!(input_mask_label(0b0000_1001), "A+Start");
    assert_eq!(input_mask_label(0xff), "A+B+Select+Start+Up+Down+Left+Right");
    assert_eq!(input_mask_label(0b1000_0000), "Right");
    assert_eq!(nes_button_label(2), "Select");
}

#[test]
fn held_buttons_make_a_mask() {
    assert_eq!(binding_mask(&[true, false, false, true, false, false, false, false]), 0b1001);
    assert_eq!(binding_mask(&[false; 8]), 0);
    assert_eq!(binding_mask(&[true; 8]), 0xff);
}

#[test]
fn controller_masks_set_every_button_of_the_port() {
    let mut controllers = vec![ControllerState { buttons: [false; 8] }; 2];
    set_controller_mask(&mut controllers, 1, 0b1000_0001);
    assert_eq!(controllers[0].buttons, [false; 8]);
    assert_eq!(
        controllers[1].buttons,
        [true, false, false, false, false, false, false, true]
    );
    set_controller_mask(&mut controllers, 5, 0xff);
    assert_eq!(controllers.len(), 2);
}

#[test]
fn live_dpad_filtering_depends_on_the_mode() {
    let input = TasFrame {
        player1: 0x30,
        player2: 0xc1,
    };
    assert_eq!(filter_live_dpad(PlayMode::Standard, true, input), input);
    assert_eq!(
        filter_live_dpad(PlayMode::Standard, false, input),
        TasFrame {
            player1: 0,
            player2: 1
        }
    );
    assert_eq!(
        filter_live_dpad(PlayMode::Speedrun, true, input),
        TasFrame {
            player1: 0,
            player2: 1
        }
    );
}

#[test]
fn controller_keys_are_recognised() {
    let p1: Vec<String> = ["X", "Z", "Shift", "Enter", "ArrowUp", "ArrowDown", "ArrowLeft", "ArrowRight"]
        .iter()
        .map(|s| s.to_string())
        .collect();
    let p2: Vec<String> = ["K", "J", "U", "I", "W", "S", "A", "D"].iter().map(|s| s.to_string()).collect();
    let coin = "C".to_string();
    assert!(key_is_controller_binding(&"Z".into(), &coin, &p1, &p2));
    assert!(key_is_controller_binding(&"W".into(), &coin, &p1, &p2));
    assert!(key_is_controller_binding(&"C".into(), &coin, &p1, &p2));
    assert!(!key_is_controller_binding(&"Tab".into(), &coin, &p1, &p2));
}

#[test]
fn gamepad_bindings_are_described() {
    assert_eq!(gamepad_button_label(GamepadButton::South), "South / A / Cross");
    assert_eq!(gamepad_axis_label(GamepadAxis::DPadY), "D-pad Y");
    assert_eq!(direction_label(-1), "−");
    assert_eq!(direction_label(0), "+");
    assert_eq!(
        gamepad_binding_label(&GamepadBinding::Button(GamepadButton::Start)),
        "Start / Options"
    );
    assert_eq!(
        gamepad_binding_label(&GamepadBinding::Axis {
            axis: GamepadAxis::LeftStickX,
            direction: -1
        }),
        "Left stick X −"
    );
    assert_eq!(
        gamepad_binding_label(&GamepadBinding::ExactButton {
            button: GamepadButton::East,
            code: "KEY(305)".into()
        }),
        "East / B / Circle [KEY(305)]"
    );
    assert_eq!(
        gamepad_binding_label(&GamepadBinding::ExactButtonLow {
            button: GamepadButton::LeftTrigger2,
            code: "ABS(2)".into()
        }),
        "Left trigger low/inverted [ABS(2)]"
    );
    assert_eq!(
        gamepad_binding_label(&GamepadBinding::ExactAxis {
            axis: GamepadAxis::RightStickY,
            code: "ABS(4)".into(),
            direction: 1
        }),
        "Right stick Y + [ABS(4)]"
    );
    assert_eq!(
        gamepad_binding_label(&GamepadBinding::ExactAxisLow {
            axis: GamepadAxis::LeftZ,
            code: "ABS(2)".into()
        }),
        "Left trigger axis low/inverted [ABS(2)]"
    );
    assert_eq!(
        gamepad_binding_label(&GamepadBinding::RawButton("KEY(300)".into())),
        "Button KEY(300)"
    );
    assert_eq!(
        gamepad_binding_label(&GamepadBinding::RawAxis {
            code: "ABS(0)".into(),
            direction: -1
        }),
        "Axis ABS(0) −"
    );
}

#[test]
fn gamepad_events_are_described() {
    assert_eq!(
        describe_gamepad_event(&GamepadEvent::ButtonPressed {
            button: GamepadButton::North,
            code: "KEY(307)".into()
        })
        .as_deref(),
        Some("North / Y / Triangle pressed [KEY(307)]")
    );
    assert_eq!(
        describe_gamepad_event(&GamepadEvent::ButtonReleased {
            button: GamepadButton::West,
            code: "KEY(308)".into()
        })
        .as_deref(),
        Some("West / X / Square released [KEY(308)]")
    );
    assert_eq!(
        describe_gamepad_event(&GamepadEvent::AxisChanged {
            axis: GamepadAxis::LeftStickY,
            value: "-0.500".into(),
            code: "ABS(1)".into()
        })
        .as_deref(),
        Some("Left stick Y value -0.500 [ABS(1)]")
    );
    assert_eq!(
        describe_gamepad_event(&GamepadEvent::ButtonChanged {
            button: GamepadButton::RightTrigger2,
            value: "1.000".into(),
            code: "ABS(5)".into()
        })
        .as_deref(),
        Some("Right trigger value 1.000 [ABS(5)]")
    );
    assert_eq!(describe_gamepad_event(&GamepadEvent::Connected).as_deref(), Some("connected"));
    assert_eq!(describe_gamepad_event(&GamepadEvent::Disconnected).as_deref(), Some("disconnected"));
    assert_eq!(describe_gamepad_event(&GamepadEvent::Dropped), None);
}

#[test]
fn escape_cancels_a_binding_capture() {
    let mut capture = Some(BindingCapture::Keyboard { player: 0, button: 3 });
    assert_eq!(cancel_binding_capture(&mut capture, false), None);
    assert_eq!(capture, Some(BindingCapture::Keyboard { player: 0, button: 3 }));
    assert_eq!(cancel_binding_capture(&mut capture, true), Some("Input binding cancelled"));
    assert_eq!(capture, None);
    assert_eq!(cancel_binding_capture(&mut capture, true), None);
    assert_eq!(keyboard_binding_status(1, 4, "W"), "Player 2 Up is now bound to W");
}
