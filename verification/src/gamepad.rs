use vstd::prelude::*;

verus! {

/// A gamepad button, named by its position on a standard pad.
#[derive(Debug, Clone, Copy, PartialEq, Eq)]
pub enum GamepadButton {
    South,
    East,
    North,
    West,
    C,
    Z,
    LeftTrigger,
    LeftTrigger2,
    RightTrigger,
    RightTrigger2,
    Select,
    Start,
    Mode,
    LeftThumb,
    RightThumb,
    DPadUp,
    DPadDown,
    DPadLeft,
    DPadRight,
    Unknown,
}

/// A gamepad axis.
#[derive(Debug, Clone, Copy, PartialEq, Eq)]
pub enum GamepadAxis {
    LeftStickX,
    LeftStickY,
    LeftZ,
    RightStickX,
    RightStickY,
    RightZ,
    DPadX,
    DPadY,
    Unknown,
}

/// The display name of a gamepad button.
pub open spec fn button_name(button: GamepadButton) -> Seq<char> {
    match button {
        GamepadButton::South => "South / A / Cross"@,
        GamepadButton::East => "East / B / Circle"@,
        GamepadButton::North => "North / Y / Triangle"@,
        GamepadButton::West => "West / X / Square"@,
        GamepadButton::C => "C"@,
        GamepadButton::Z => "Z"@,
        GamepadButton::LeftTrigger => "Left bumper"@,
        GamepadButton::LeftTrigger2 => "Left trigger"@,
        GamepadButton::RightTrigger => "Right bumper"@,
        GamepadButton::RightTrigger2 => "Right trigger"@,
        GamepadButton::Select => "Select / Back / Create"@,
        GamepadButton::Start => "Start / Options"@,
        GamepadButton::Mode => "Home / Guide"@,
        GamepadButton::LeftThumb => "Left stick click"@,
        GamepadButton::RightThumb => "Right stick click"@,
        GamepadButton::DPadUp => "D-pad Up"@,
        GamepadButton::DPadDown => "D-pad Down"@,
        GamepadButton::DPadLeft => "D-pad Left"@,
        GamepadButton::DPadRight => "D-pad Right"@,
        GamepadButton::Unknown => "Unknown button"@,
    }
}

/// The display name of a gamepad axis.
pub open spec fn axis_name(axis: GamepadAxis) -> Seq<char> {
    match axis {
        GamepadAxis::LeftStickX => "Left stick X"@,
        GamepadAxis::LeftStickY => "Left stick Y"@,
        GamepadAxis::LeftZ => "Left trigger axis"@,
        GamepadAxis::RightStickX => "Right stick X"@,
        GamepadAxis::RightStickY => "Right stick Y"@,
        GamepadAxis::RightZ => "Right trigger axis"@,
        GamepadAxis::DPadX => "D-pad X"@,
        GamepadAxis::DPadY => "D-pad Y"@,
        GamepadAxis::Unknown => "Unknown axis"@,
    }
}

/// The sign shown for an axis direction: "−" for negative, "+" otherwise.
pub open spec fn direction_sign(direction: i8) -> Seq<char> {
    if direction < 0 {
        "−"@
    } else {
        "+"@
    }
}

/// The display name of a gamepad button.
pub fn gamepad_button_label(button: GamepadButton) -> (label: &'static str)
    ensures
        label@ == button_name(button),
{
    match button {
        GamepadButton::South => "South / A / Cross",
        GamepadButton::East => "East / B / Circle",
        GamepadButton::North => "North / Y / Triangle",
        GamepadButton::West => "West / X / Square",
        GamepadButton::C => "C",
        GamepadButton::Z => "Z",
        GamepadButton::LeftTrigger => "Left bumper",
        GamepadButton::LeftTrigger2 => "Left trigger",
        GamepadButton::RightTrigger => "Right bumper",
        GamepadButton::RightTrigger2 => "Right trigger",
        GamepadButton::Select => "Select / Back / Create",
        GamepadButton::Start => "Start / Options",
        GamepadButton::Mode => "Home / Guide",
        GamepadButton::LeftThumb => "Left stick click",
        GamepadButton::RightThumb => "Right stick click",
        GamepadButton::DPadUp => "D-pad Up",
        GamepadButton::DPadDown => "D-pad Down",
        GamepadButton::DPadLeft => "D-pad Left",
        GamepadButton::DPadRight => "D-pad Right",
        GamepadButton::Unknown => "Unknown button",
    }
}

/// The display name of a gamepad axis.
pub fn gamepad_axis_label(axis: GamepadAxis) -> (label: &'static str)
    ensures
        label@ == axis_name(axis),
{
    match axis {
        GamepadAxis::LeftStickX => "Left stick X",
        GamepadAxis::LeftStickY => "Left stick Y",
        GamepadAxis::LeftZ => "Left trigger axis",
        GamepadAxis::RightStickX => "Right stick X",
        GamepadAxis::RightStickY => "Right stick Y",
        GamepadAxis::RightZ => "Right trigger axis",
        GamepadAxis::DPadX => "D-pad X",
        GamepadAxis::DPadY => "D-pad Y",
        GamepadAxis::Unknown => "Unknown axis",
    }
}

/// The sign shown for an axis direction.
pub fn direction_label(direction: i8) -> (label: &'static str)
    ensures
        label@ == direction_sign(direction),
{
    if direction < 0 {
        "−"
    } else {
        "+"
    }
}

/// How a controller button is bound to a gamepad. `code` is the platform event
/// code as the gamepad library prints it.
#[derive(Debug, Clone, PartialEq, Eq)]
pub enum GamepadBinding {
    Button(GamepadButton),
    Axis { axis: GamepadAxis, direction: i8 },
    ExactButton { button: GamepadButton, code: String },
    ExactButtonLow { button: GamepadButton, code: String },
    ExactAxis { axis: GamepadAxis, code: String, direction: i8 },
    ExactAxisLow { axis: GamepadAxis, code: String },
    RawButton(String),
    RawAxis { code: String, direction: i8 },
}

/// The display text of a gamepad binding.
pub open spec fn binding_text(binding: GamepadBinding) -> Seq<char> {
    match binding {
        GamepadBinding::Button(button) => button_name(button),
        GamepadBinding::Axis { axis, direction } => axis_name(axis) + " "@ + direction_sign(direction),
        GamepadBinding::ExactButton { button, code } => button_name(button) + " ["@ + code@ + "]"@,
        GamepadBinding::ExactButtonLow { button, code } => button_name(button) + " low/inverted ["@ + code@ + "]"@,
        GamepadBinding::ExactAxis { axis, code, direction } => axis_name(axis) + " "@ + direction_sign(direction)
            + " ["@ + code@ + "]"@,
        GamepadBinding::ExactAxisLow { axis, code } => axis_name(axis) + " low/inverted ["@ + code@ + "]"@,
        GamepadBinding::RawButton(code) => "Button "@ + code@,
        GamepadBinding::RawAxis { code, direction } => "Axis "@ + code@ + " "@ + direction_sign(direction),
    }
}

/// Describes a gamepad binding for the input settings.
pub fn gamepad_binding_label(binding: &GamepadBinding) -> (label: String)
    ensures
        label@ == binding_text(*binding),
{
    let mut s = String::new();
    match binding {
        GamepadBinding::Button(button) => {
            s.append(gamepad_button_label(*button));
        },
        GamepadBinding::Axis { axis, direction } => {
            s.append(gamepad_axis_label(*axis));
            s.append(" ");
            s.append(direction_label(*direction));
        },
        GamepadBinding::ExactButton { button, code } => {
            s.append(gamepad_button_label(*button));
            s.append(" [");
            s.append(code.as_str());
            s.append("]");
        },
        GamepadBinding::ExactButtonLow { button, code } => {
            s.append(gamepad_button_label(*button));
            s.append(" low/inverted [");
            s.append(code.as_str());
            s.append("]");
        },
        GamepadBinding::ExactAxis { axis, code, direction } => {
            s.append(gamepad_axis_label(*axis));
            s.append(" ");
            s.append(direction_label(*direction));
            s.append(" [");
            s.append(code.as_str());
            s.append("]");
        },
        GamepadBinding::ExactAxisLow { axis, code } => {
            s.append(gamepad_axis_label(*axis));
            s.append(" low/inverted [");
            s.append(code.as_str());
            s.append("]");
        },
        GamepadBinding::RawButton(code) => {
            s.append("Button ");
            s.append(code.as_str());
        },
        GamepadBinding::RawAxis { code, direction } => {
            s.append("Axis ");
            s.append(code.as_str());
            s.append(" ");
            s.append(direction_label(*direction));
        },
    }
    assert(s@ =~= binding_text(*binding));
    s
}

/// A gamepad event. `value` is the analog value as the front end prints it
/// with three decimals; `code` is the platform event code as printed.
#[derive(Debug, Clone, PartialEq, Eq)]
pub enum GamepadEvent {
    ButtonPressed { button: GamepadButton, code: String },
    ButtonRepeated { button: GamepadButton, code: String },
    ButtonReleased { button: GamepadButton, code: String },
    ButtonChanged { button: GamepadButton, value: String, code: String },
    AxisChanged { axis: GamepadAxis, value: String, code: String },
    Connected,
    Disconnected,
    Dropped,
    ForceFeedbackEffectCompleted,
}

/// The activity line for a gamepad event, if it is worth showing.
pub open spec fn event_text(event: GamepadEvent) -> Option<Seq<char>> {
    match event {
        GamepadEvent::ButtonPressed { button, code } => Some(button_name(button) + " pressed ["@ + code@ + "]"@),
        GamepadEvent::ButtonReleased { button, code } => Some(button_name(button) + " released ["@ + code@ + "]"@),
        GamepadEvent::ButtonChanged { button, value, code } => Some(
            button_name(button) + " value "@ + value@ + " ["@ + code@ + "]"@,
        ),
        GamepadEvent::AxisChanged { axis, value, code } => Some(
            axis_name(axis) + " value "@ + value@ + " ["@ + code@ + "]"@,
        ),
        GamepadEvent::Connected => Some("connected"@),
        GamepadEvent::Disconnected => Some("disconnected"@),
        _ => None,
    }
}

fn append_code(s: &mut String, code: &String)
    ensures
        final(s)@ == old(s)@ + " ["@ + code@ + "]"@,
{
    s.append(" [");
    s.append(code.as_str());
    s.append("]");
}

/// Describes a gamepad event for the input activity line.
pub fn describe_gamepad_event(event: &GamepadEvent) -> (text: Option<String>)
    ensures
        text matches Some(t) ==> event_text(*event) == Some(t@),
        text is None ==> event_text(*event) is None,
{
    match event {
        GamepadEvent::ButtonPressed { button, code } => {
            let mut s = String::from_str(gamepad_button_label(*button));
            s.append(" pressed [");
            s.append(code.as_str());
            s.append("]");
            assert(s@ =~= button_name(*button) + " pressed ["@ + code@ + "]"@);
            Some(s)
        },
        GamepadEvent::ButtonReleased { button, code } => {
            let mut s = String::from_str(gamepad_button_label(*button));
            s.append(" released [");
            s.append(code.as_str());
            s.append("]");
            assert(s@ =~= button_name(*button) + " released ["@ + code@ + "]"@);
            Some(s)
        },
        GamepadEvent::ButtonChanged { button, value, code } => {
            let mut s = String::from_str(gamepad_button_label(*button));
            s.append(" value ");
            s.append(value.as_str());
            append_code(&mut s, code);
            assert(s@ =~= button_name(*button) + " value "@ + value@ + " ["@ + code@ + "]"@);
            Some(s)
        },
        GamepadEvent::AxisChanged { axis, value, code } => {
            let mut s = String::from_str(gamepad_axis_label(*axis));
            s.append(" value ");
            s.append(value.as_str());
            append_code(&mut s, code);
            assert(s@ =~= axis_name(*axis) + " value "@ + value@ + " ["@ + code@ + "]"@);
            Some(s)
        },
        GamepadEvent::Connected => Some(String::from_str("connected")),
        GamepadEvent::Disconnected => Some(String::from_str("disconnected")),
        _ => None,
    }
}

} // verus!
