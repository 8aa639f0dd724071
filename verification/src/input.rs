use vstd::prelude::*;

use crate::text::{append_decimal, decimal, join, lemma_join_push};

verus! {

/// Whether button `bit` (0 = A, 1 = B, 2 = Select, 3 = Start, 4 = Up, 5 = Down,
/// 6 = Left, 7 = Right) is held in a controller mask.
pub open spec fn button_held(mask: u8, bit: int) -> bool {
    (mask >> (bit as u8)) & 1 == 1
}

/// The name of NES controller button `index`.
pub open spec fn nes_button_name(index: int) -> Seq<char> {
    if index == 0 {
        "A"@
    } else if index == 1 {
        "B"@
    } else if index == 2 {
        "Select"@
    } else if index == 3 {
        "Start"@
    } else if index == 4 {
        "Up"@
    } else if index == 5 {
        "Down"@
    } else if index == 6 {
        "Left"@
    } else {
        "Right"@
    }
}

/// The name of NES controller button `index`, in mask bit order.
pub fn nes_button_label(index: usize) -> (label: &'static str)
    requires
        index < 8,
    ensures
        label@ == nes_button_name(index as int),
{
    match index {
        0 => "A",
        1 => "B",
        2 => "Select",
        3 => "Start",
        4 => "Up",
        5 => "Down",
        6 => "Left",
        _ => "Right",
    }
}

/// The names of the buttons among the first `n` that `mask` holds, in bit order.
pub open spec fn held_button_names(mask: u8, n: nat) -> Seq<Seq<char>>
    decreases n,
{
    if n == 0 {
        Seq::empty()
    } else {
        let earlier = held_button_names(mask, (n - 1) as nat);
        if button_held(mask, n - 1) {
            earlier.push(nes_button_name(n - 1))
        } else {
            earlier
        }
    }
}

/// The text for a controller mask: held buttons joined by "+", or "—" for none.
pub open spec fn input_mask_text(mask: u8) -> Seq<char> {
    let names = held_button_names(mask, 8);
    if names.len() == 0 {
        "—"@
    } else {
        join(names, "+"@)
    }
}

/// Describes the buttons held in a controller mask, e.g. "A+Start".
pub fn input_mask_label(mask: u8) -> (label: String)
    ensures
        label@ == input_mask_text(mask),
{
    let mut label = String::new();
    let mut any = false;
    let mut bit: u8 = 0;
    while bit < 8
        invariant
            bit <= 8,
            label@ == join(held_button_names(mask, bit as nat), "+"@),
            any == (held_button_names(mask, bit as nat).len() > 0),
        decreases 8 - bit,
    {
        let ghost names = held_button_names(mask, bit as nat);
        if (mask >> bit) & 1 == 1 {
            proof {
                lemma_join_push(names, nes_button_name(bit as int), "+"@);
            }
            if any {
                label.append("+");
            }
            label.append(nes_button_label(bit as usize));
            any = true;
        }
        bit += 1;
    }
    if !any {
        return String::from_str("—");
    }
    label
}

/// Bits of the Up and Down buttons in a controller mask.
pub const UP_DOWN: u8 = 0x30;

/// Bits of the Left and Right buttons in a controller mask.
pub const LEFT_RIGHT: u8 = 0xc0;

/// The mask that remains when opposite directions pressed together cancel out.
pub open spec fn neutralized(mask: u8) -> u8 {
    let m = if mask & UP_DOWN == UP_DOWN { mask & !UP_DOWN } else { mask };
    if m & LEFT_RIGHT == LEFT_RIGHT { m & !LEFT_RIGHT } else { m }
}

/// Neutralizing never touches the four non-direction buttons and never
/// leaves a pair of opposite directions held together.
pub proof fn lemma_neutralized_bits(mask: u8)
    ensures
        neutralized(mask) & 0x0f == mask & 0x0f,
        neutralized(mask) & 0x30 != 0x30,
        neutralized(mask) & 0xc0 != 0xc0,
{
    assert(neutralized(mask) & 0x0f == mask & 0x0f && neutralized(mask) & 0x30 != 0x30
        && neutralized(mask) & 0xc0 != 0xc0) by (bit_vector);
}

/// Law: cancelling opposite directions twice changes nothing more.
pub proof fn lemma_neutralized_idempotent(mask: u8)
    ensures
        neutralized(neutralized(mask)) == neutralized(mask),
{
    assert(neutralized(neutralized(mask)) == neutralized(mask)) by (bit_vector);
}

/// Law: each pair of opposite directions is cancelled on its own. A pair that is
/// held together (Up+Down, bits 4 and 5; Left+Right, bits 6 and 7) is cleared;
/// a pair that is not keeps its bits exactly, whatever the other pair does; and
/// A, B, Select and Start are never touched.
pub proof fn lemma_pairs_cancel_independently(mask: u8)
    ensures
        neutralized(mask) & 0x0f == mask & 0x0f,
        mask & 0x30 != 0x30 ==> neutralized(mask) & 0x30 == mask & 0x30,
        mask & 0x30 == 0x30 ==> neutralized(mask) & 0x30 == 0,
        mask & 0xc0 != 0xc0 ==> neutralized(mask) & 0xc0 == mask & 0xc0,
        mask & 0xc0 == 0xc0 ==> neutralized(mask) & 0xc0 == 0,
{
    let r = neutralized(mask);
    assert(r & 0x0f == mask & 0x0f) by (bit_vector)
        requires
            r == (if (if mask & 0x30 == 0x30 { mask & !0x30u8 } else { mask }) & 0xc0 == 0xc0 {
                (if mask & 0x30 == 0x30 { mask & !0x30u8 } else { mask }) & !0xc0u8
            } else {
                if mask & 0x30 == 0x30 { mask & !0x30u8 } else { mask }
            }),
    ;
    assert((mask & 0x30 != 0x30 ==> r & 0x30 == mask & 0x30) && (mask & 0x30 == 0x30 ==> r & 0x30 == 0) && (mask
        & 0xc0 != 0xc0 ==> r & 0xc0 == mask & 0xc0) && (mask & 0xc0 == 0xc0 ==> r & 0xc0 == 0)) by (bit_vector)
        requires
            r == (if (if mask & 0x30 == 0x30 { mask & !0x30u8 } else { mask }) & 0xc0 == 0xc0 {
                (if mask & 0x30 == 0x30 { mask & !0x30u8 } else { mask }) & !0xc0u8
            } else {
                if mask & 0x30 == 0x30 { mask & !0x30u8 } else { mask }
            }),
    ;
}

/// Clears Up+Down and Left+Right when both buttons of a pair are held.
pub fn neutralize_opposite_directions(mask: u8) -> (result: u8)
    ensures
        result == neutralized(mask),
        result & 0x0f == mask & 0x0f,
        result & UP_DOWN != UP_DOWN,
        result & LEFT_RIGHT != LEFT_RIGHT,
        mask & 0x30 != 0x30 ==> result & 0x30 == mask & 0x30,
        mask & 0x30 == 0x30 ==> result & 0x30 == 0,
        mask & 0xc0 != 0xc0 ==> result & 0xc0 == mask & 0xc0,
        mask & 0xc0 == 0xc0 ==> result & 0xc0 == 0,
{
    let ghost old_mask = mask;
    let mut mask = mask;
    if mask & UP_DOWN == UP_DOWN {
        mask &= !UP_DOWN;
    }
    if mask & LEFT_RIGHT == LEFT_RIGHT {
        mask &= !LEFT_RIGHT;
    }
    proof {
        lemma_neutralized_bits(old_mask);
        lemma_pairs_cancel_independently(old_mask);
    }
    mask
}

/// Setting bit `b` of a mask adds button `b` and keeps the others.
pub proof fn lemma_set_button(m: u8, b: u8, i: u8)
    requires
        b < 8,
        i < 8,
    ensures
        ((m | (1u8 << b)) >> i) & 1 == 1 <==> ((m >> i) & 1 == 1 || i == b),
{
    assert(((m | (1u8 << b)) >> i) & 1 == 1 <==> ((m >> i) & 1 == 1 || i == b)) by (bit_vector)
        requires
            b < 8,
            i < 8,
    ;
}

/// The controller mask holding exactly the buttons marked in `held`, in bit order.
pub fn binding_mask(held: &[bool; 8]) -> (mask: u8)
    ensures
        forall|i: int| 0 <= i < 8 ==> button_held(mask, i) == held[i],
{
    let mut mask: u8 = 0;
    let mut bit: u8 = 0;
    proof {
        assert forall|i: int| 0 <= i < 8 implies !button_held(0u8, i) by {
            let b = i as u8;
            assert((0u8 >> b) & 1 != 1) by (bit_vector);
        }
    }
    while bit < 8
        invariant
            bit <= 8,
            forall|i: int| 0 <= i < bit ==> button_held(mask, i) == held[i],
            forall|i: int| bit <= i < 8 ==> !button_held(mask, i),
        decreases 8 - bit,
    {
        if held[bit as usize] {
            let ghost before = mask;
            mask = mask | (1u8 << bit);
            proof {
                assert forall|i: int| 0 <= i < 8 implies button_held(mask, i) == (button_held(before, i) || i == bit) by {
                    lemma_set_button(before, bit, i as u8);
                }
            }
        }
        bit += 1;
    }
    mask
}

/// The eight buttons of a standard controller, in mask bit order.
#[derive(Debug, Clone, Copy, PartialEq, Eq)]
pub struct ControllerState {
    pub buttons: [bool; 8],
}

/// Sets every button of the controller on `port` from `mask`; a port without a
/// standard controller is left alone.
pub fn set_controller_mask(controllers: &mut Vec<ControllerState>, port: usize, mask: u8)
    ensures
        final(controllers)@.len() == old(controllers)@.len(),
        forall|p: int| 0 <= p < old(controllers)@.len() && p != port ==> final(controllers)@[p] == old(controllers)@[p],
        port < old(controllers)@.len() ==> forall|i: int| 0 <= i < 8 ==> final(controllers)@[port as int].buttons[i]
            == button_held(mask, i),
{
    if port < controllers.len() {
        let buttons = [
            (mask >> 0u8) & 1 == 1,
            (mask >> 1u8) & 1 == 1,
            (mask >> 2u8) & 1 == 1,
            (mask >> 3u8) & 1 == 1,
            (mask >> 4u8) & 1 == 1,
            (mask >> 5u8) & 1 == 1,
            (mask >> 6u8) & 1 == 1,
            (mask >> 7u8) & 1 == 1,
        ];
        controllers.set(port, ControllerState { buttons });
    }
}

/// Both controllers' buttons for one frame.
#[derive(Debug, Clone, Copy, PartialEq, Eq, Default)]
pub struct TasFrame {
    pub player1: u8,
    pub player2: u8,
}

/// How assisted the current session is.
#[derive(Debug, Clone, Copy, PartialEq, Eq, Structural)]
pub enum PlayMode {
    Standard,
    Achievement,
    Speedrun,
}

/// Live input with opposite directions cancelled, unless standard play allows
/// holding them together.
pub fn filter_live_dpad(play_mode: PlayMode, allow_opposite_directions: bool, input: TasFrame) -> (filtered: TasFrame)
    ensures
        filtered == if play_mode == PlayMode::Standard && allow_opposite_directions {
            input
        } else {
            TasFrame { player1: neutralized(input.player1), player2: neutralized(input.player2) }
        },
{
    if play_mode == PlayMode::Standard && allow_opposite_directions {
        input
    } else {
        TasFrame {
            player1: neutralize_opposite_directions(input.player1),
            player2: neutralize_opposite_directions(input.player2),
        }
    }
}

/// Whether the keyboard key named `key_name` is bound to a controller button of
/// either player or to the VS coin slot.
pub fn key_is_controller_binding(
    key_name: &String,
    vs_coin_binding: &String,
    bindings: &Vec<String>,
    player2_bindings: &Vec<String>,
) -> (bound: bool)
    ensures
        bound == (vs_coin_binding@ == key_name@
            || (exists|i: int| 0 <= i < bindings@.len() && bindings@[i]@ == key_name@)
            || (exists|i: int| 0 <= i < player2_bindings@.len() && player2_bindings@[i]@ == key_name@)),
{
    if *vs_coin_binding == *key_name {
        return true;
    }
    let mut i: usize = 0;
    while i < bindings.len()
        invariant
            i <= bindings@.len(),
            forall|j: int| 0 <= j < i ==> bindings@[j]@ != key_name@,
        decreases bindings@.len() - i,
    {
        if bindings[i] == *key_name {
            return true;
        }
        i += 1;
    }
    let mut k: usize = 0;
    while k < player2_bindings.len()
        invariant
            k <= player2_bindings@.len(),
            forall|j: int| 0 <= j < k ==> player2_bindings@[j]@ != key_name@,
        decreases player2_bindings@.len() - k,
    {
        if player2_bindings[k] == *key_name {
            return true;
        }
        k += 1;
    }
    false
}

/// Which binding the settings are waiting to capture from the next key or
/// gamepad press.
#[derive(Debug, Clone, Copy, PartialEq, Eq, Structural)]
pub enum BindingCapture {
    Keyboard { player: usize, button: usize },
    Gamepad { player: usize, button: usize },
    VsCoinKeyboard,
    VsCoinGamepad,
    FdsSwapKeyboard,
    FdsSwapGamepad,
}

/// Escape cancels a pending binding capture: the capture ends and the returned
/// status line says so; without a capture, or without Escape, nothing changes.
pub fn cancel_binding_capture(capture: &mut Option<BindingCapture>, escape_pressed: bool) -> (status: Option<&'static str>)
    ensures
        (*old(capture)) is Some && escape_pressed ==> (*final(capture)) is None && status is Some
            && status.unwrap()@ == "Input binding cancelled"@,
        !((*old(capture)) is Some && escape_pressed) ==> *final(capture) == *old(capture) && status is None,
{
    if capture.is_some() && escape_pressed {
        *capture = None;
        Some("Input binding cancelled")
    } else {
        None
    }
}

/// The status line after a key is bound to a controller button:
/// "Player N <button> is now bound to <key>", players counted from 1.
pub fn keyboard_binding_status(player: usize, button: usize, key_label: &str) -> (status: String)
    requires
        button < 8,
        player < usize::MAX,
    ensures
        status@ == "Player "@ + decimal((player + 1) as nat) + " "@ + nes_button_name(button as int)
            + " is now bound to "@ + key_label@,
{
    let mut status = String::from_str("Player ");
    append_decimal(&mut status, (player + 1) as u64);
    status.append(" ");
    status.append(nes_button_label(button));
    status.append(" is now bound to ");
    status.append(key_label);
    status
}

} // verus!
