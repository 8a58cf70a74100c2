//! Device-independent player intent: what the player wants this frame,
//! resolved from plain keyboard and gamepad samples that the host supplies.
//!
//! Axes are per-mille values in `[-1000, 1000]`; aim vectors use the same
//! milli scale as unit vectors.

use vstd::prelude::*;

use crate::math::{
    clamp_i64, in_box, mul_div, vec2_length, vec2_normalize, vec2_scale, Vec2,
};

verus! {

/// Which device the player touched last.
#[derive(Clone, Copy, Debug, PartialEq, Eq, Structural)]
pub enum InputDevice {
    KeyboardMouse,
    Gamepad,
}

/// The abstract intent of the player for one frame.
#[derive(Clone, Copy, Debug, PartialEq, Eq, Structural)]
pub struct PlayerInput {
    pub turn: i64,
    pub movement: i64,
    pub aim_dir: Option<Vec2>,
    pub wants_fire: bool,
    pub use_mouse_aim: bool,
}

/// Well-formedness of a player intent: axes per-mille, aim bounded.
pub open spec fn input_wf(i: PlayerInput) -> bool {
    &&& -1000 <= i.turn <= 1000
    &&& -1000 <= i.movement <= 1000
    &&& match i.aim_dir {
        Some(v) => in_box(v, 30_000),
        None => true,
    }
}

/// A neutral intent: no turning, no throttle, no fire.
pub fn neutral_input() -> (r: PlayerInput)
    ensures
        input_wf(r),
        r.turn == 0,
        r.movement == 0,
        r.aim_dir is None,
        !r.wants_fire,
{
    PlayerInput { turn: 0, movement: 0, aim_dir: None, wants_fire: false, use_mouse_aim: true }
}

/// One frame of keyboard and mouse state, reduced to plain values.
#[derive(Clone, Copy, Debug, PartialEq, Eq, Structural)]
pub struct KeyboardSample {
    pub turn: i64,
    pub movement: i64,
    pub wants_fire: bool,
    pub active: bool,
}

/// Well-formedness of a keyboard sample.
pub open spec fn keyboard_sample_wf(s: KeyboardSample) -> bool {
    -1000 <= s.turn <= 1000 && -1000 <= s.movement <= 1000
}

/// One frame of gamepad state, reduced to plain values.
#[derive(Clone, Copy, Debug, PartialEq, Eq, Structural)]
pub struct GamepadSample {
    pub turn: i64,
    pub movement: i64,
    pub aim_dir: Option<Vec2>,
    pub wants_fire: bool,
    pub active: bool,
}

/// Well-formedness of a gamepad sample.
pub open spec fn gamepad_sample_wf(s: GamepadSample) -> bool {
    &&& -1000 <= s.turn <= 1000
    &&& -1000 <= s.movement <= 1000
    &&& match s.aim_dir {
        Some(v) => in_box(v, 30_000),
        None => true,
    }
}

/// Remembers which device the player used last and whether a gamepad is
/// connected.
pub struct InputState {
    pub last_device: InputDevice,
    pub gamepad_available: bool,
    pub gamepad_id: i64,
}

impl InputState {
    /// A fresh input state: keyboard assumed, no gamepad seen yet.
    pub fn new() -> (r: InputState)
        ensures
            r.last_device == InputDevice::KeyboardMouse,
            !r.gamepad_available,
            r.gamepad_id == 0,
    {
        InputState {
            last_device: InputDevice::KeyboardMouse,
            gamepad_available: false,
            gamepad_id: 0,
        }
    }

    /// The device the player touched last.
    pub fn last_device(&self) -> (r: InputDevice)
        ensures
            r == self.last_device,
    {
        self.last_device
    }

    /// Whether a gamepad is currently connected.
    pub fn gamepad_available(&self) -> (r: bool)
        ensures
            r == self.gamepad_available,
    {
        self.gamepad_available
    }

    /// Which gamepad slot is polled.
    pub fn gamepad_id(&self) -> (r: i64)
        ensures
            r == self.gamepad_id,
    {
        self.gamepad_id
    }

    /// Records whether a gamepad is connected; losing the gamepad falls
    /// back to the keyboard.
    pub fn refresh_gamepad(&mut self, connected: bool)
        ensures
            final(self).gamepad_available == connected,
            final(self).gamepad_id == old(self).gamepad_id,
            final(self).last_device == if !connected
                && old(self).last_device == InputDevice::Gamepad {
                InputDevice::KeyboardMouse
            } else {
                old(self).last_device
            },
    {
        self.gamepad_available = connected;
        if !connected && matches!(self.last_device, InputDevice::Gamepad) {
            self.last_device = InputDevice::KeyboardMouse;
        }
    }

    /// The start/confirm edge signal: pressed on the keyboard, or on a
    /// connected gamepad; remembers which device pressed it.
    pub fn start_pressed(&mut self, gamepad_connected: bool, keyboard_pressed: bool,
        gamepad_pressed: bool) -> (r: bool)
        ensures
            r == (keyboard_pressed || (gamepad_connected && gamepad_pressed)),
            final(self).gamepad_available == gamepad_connected,
            final(self).gamepad_id == old(self).gamepad_id,
    {
        self.refresh_gamepad(gamepad_connected);
        let mut pressed = false;
        if keyboard_pressed {
            self.last_device = InputDevice::KeyboardMouse;
            pressed = true;
        }
        if self.gamepad_available && gamepad_pressed {
            self.last_device = InputDevice::Gamepad;
            pressed = true;
        }
        pressed
    }

    /// Resolves the frame's intent from both device samples: the most
    /// recently active device wins the axes, the gamepad supplies an aim
    /// vector, and either device may fire.
    pub fn player_input(&mut self, gamepad_connected: bool, keyboard: KeyboardSample,
        gamepad: GamepadSample) -> (r: PlayerInput)
        requires
            keyboard_sample_wf(keyboard),
            gamepad_sample_wf(gamepad),
        ensures
            input_wf(r),
            r.wants_fire == (keyboard.wants_fire || gamepad.wants_fire),
            r.use_mouse_aim == (final(self).last_device == InputDevice::KeyboardMouse),
            final(self).last_device == InputDevice::Gamepad ==> r.aim_dir == gamepad.aim_dir,
            final(self).last_device == InputDevice::KeyboardMouse ==> r.aim_dir is None,
            final(self).gamepad_id == old(self).gamepad_id,
    {
        self.refresh_gamepad(gamepad_connected);
        let gamepad_active = self.gamepad_available && gamepad.active;
        if gamepad_active && !keyboard.active {
            self.last_device = InputDevice::Gamepad;
        } else if keyboard.active && !gamepad_active {
            self.last_device = InputDevice::KeyboardMouse;
        }

        let on_keyboard = matches!(self.last_device, InputDevice::KeyboardMouse);
        let turn = pick_axis(self.last_device, keyboard.turn, gamepad.turn);
        let movement = pick_axis(self.last_device, keyboard.movement, gamepad.movement);
        let aim_dir = if on_keyboard {
            None
        } else {
            gamepad.aim_dir
        };
        PlayerInput {
            turn,
            movement,
            aim_dir,
            wants_fire: keyboard.wants_fire || gamepad.wants_fire,
            use_mouse_aim: on_keyboard,
        }
    }
}

/// Picks an axis value: the last-used device wins, but an idle axis yields
/// to the other device.
pub fn pick_axis(device: InputDevice, keyboard: i64, gamepad: i64) -> (r: i64)
    requires
        -1000 <= keyboard <= 1000,
        -1000 <= gamepad <= 1000,
    ensures
        -1000 <= r <= 1000,
        r == keyboard || r == gamepad,
        device == InputDevice::KeyboardMouse
            ==> r == if keyboard < -10 || keyboard > 10 { keyboard } else { gamepad },
        device == InputDevice::Gamepad
            ==> r == if gamepad < -10 || gamepad > 10 { gamepad } else { keyboard },
{
    match device {
        InputDevice::KeyboardMouse => {
            if keyboard < -10 || keyboard > 10 {
                keyboard
            } else {
                gamepad
            }
        },
        InputDevice::Gamepad => {
            if gamepad < -10 || gamepad > 10 {
                gamepad
            } else {
                keyboard
            }
        },
    }
}

/// Applies a radial deadzone to a stick vector: inside the deadzone the
/// stick reads zero; outside, its magnitude is rescaled to start at zero.
pub fn apply_radial_deadzone(value: Vec2, deadzone: i64) -> (r: Vec2)
    requires
        in_box(value, 2_000),
        0 <= deadzone <= 900,
    ensures
        in_box(r, 30_000),
{
    let len = vec2_length(value);
    proof {
        assert(len <= 3_000) by (nonlinear_arith)
            requires
                0 <= len,
                len * len <= value.x * value.x + value.y * value.y,
                -2_000 <= value.x <= 2_000,
                -2_000 <= value.y <= 2_000;
    }
    if len <= deadzone {
        Vec2 { x: 0, y: 0 }
    } else {
        let scaled = mul_div(len - deadzone, 1000, 1000 - deadzone);
        proof {
            crate::tanks::lemma_div_trunc_sym_bound(
                (len - deadzone) as int, 1000, (1000 - deadzone) as int, 3_000_000);
            vstd::arithmetic::div_mod::lemma_div_is_ordered_by_denominator(
                3_000_000, 100, (1000 - deadzone) as int);
        }
        assert(0 <= scaled <= 30_000);
        let unit = vec2_normalize(value);
        proof {
            assert(-30_000_000 <= unit.x * scaled <= 30_000_000) by (nonlinear_arith)
                requires -1000 <= unit.x <= 1000, 0 <= scaled <= 30_000;
            assert(-30_000_000 <= unit.y * scaled <= 30_000_000) by (nonlinear_arith)
                requires -1000 <= unit.y <= 1000, 0 <= scaled <= 30_000;
        }
        let r = vec2_scale(unit, scaled, 1000);
        proof {
            crate::tanks::lemma_div_trunc_sym_bound(
                unit.x as int, scaled as int, 1000, 30_000_000);
            crate::tanks::lemma_div_trunc_sym_bound(
                unit.y as int, scaled as int, 1000, 30_000_000);
        }
        r
    }
}

/// Normalizes a trigger axis into `[0, 1000]`: some gamepads report
/// triggers in `[-1000, 1000]`, others in `[0, 1000]`.
pub fn normalize_trigger(axis: i64) -> (r: i64)
    requires
        -2_000 <= axis <= 2_000,
    ensures
        0 <= r <= 1000,
{
    if axis < -200 {
        let halved = mul_div(axis + 1000, 1, 2);
        clamp_i64(halved, 0, 1000)
    } else {
        clamp_i64(axis, 0, 1000)
    }
}

} // verus!
