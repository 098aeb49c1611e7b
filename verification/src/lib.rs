//! Joystick and gamepad input model: device capabilities are resolved into a
//! mapping from report fields to buttons, axes, sliders and hats; raw reports
//! are decoded against that mapping; consecutive snapshots are compared and
//! the changes are published as events.

use vstd::prelude::*;
use vstd::std_specs::convert::FromSpecImpl;

pub mod driver;
pub mod profile;

verus! {

/// Number of axis kinds a device can expose.
pub const AXIS_LIMIT: usize = 6;

/// Direction of a hat switch (D-pad). `Null` is the centered position.
#[derive(Debug, Clone, Copy, PartialEq, Eq, Structural)]
pub enum DPadState {
    Null,
    Up,
    Down,
    Left,
    Right,
    UpLeft,
    UpRight,
    DownLeft,
    DownRight,
}

/// Semantic name of a button, as a device profile assigns it.
#[derive(Debug, Clone, Copy, PartialEq, Eq)]
pub enum Button {
    Start,
    Select,
    Mode,
    LThumb,
    RThumb,
    LShoulder,
    RShoulder,
    LTrigger,
    RTrigger,
    North,
    South,
    East,
    West,
    Other(&'static str),
}

/// Zero-based ordinal of a button within its device.
pub type ButtonIdent = usize;

#[derive(Debug, Clone, Copy, PartialEq, Eq, Structural)]
pub enum ButtonState {
    Pressed,
    Released,
}

impl Default for ButtonState {
    fn default() -> (r: Self)
        ensures
            r == ButtonState::Released,
    {
        ButtonState::Released
    }
}

impl Default for DPadState {
    fn default() -> (r: Self)
        ensures
            r == DPadState::Null,
    {
        DPadState::Null
    }
}

impl ButtonState {
    /// `Pressed` for `true`, `Released` for `false`.
    pub open spec fn of(v: bool) -> ButtonState {
        if v {
            ButtonState::Pressed
        } else {
            ButtonState::Released
        }
    }
}

impl From<bool> for ButtonState {
    fn from(v: bool) -> (r: Self) {
        if v {
            Self::Pressed
        } else {
            Self::Released
        }
    }
}

impl FromSpecImpl<bool> for ButtonState {
    open spec fn obeys_from_spec() -> bool {
        true
    }

    open spec fn from_spec(v: bool) -> Self {
        ButtonState::of(v)
    }
}

/// Semantic name of an axis, as a device profile assigns it.
#[derive(Debug, Clone, Copy, PartialEq, Eq)]
pub enum Axis {
    LThumbX,
    LThumbY,
    RThumbX,
    RThumbY,
    LTrigger,
    RTrigger,
    Other(&'static str),
}

/// Kind of an axis as the device declares it.
#[derive(Debug, Clone, Copy, PartialEq, Eq, Structural)]
pub enum AxisIdent {
    X,
    Y,
    Z,
    RX,
    RY,
    RZ,
}

impl AxisIdent {
    /// Position of this kind in a profile's axis table.
    pub open spec fn spec_index(self) -> usize {
        match self {
            AxisIdent::X => 0,
            AxisIdent::Y => 1,
            AxisIdent::Z => 2,
            AxisIdent::RX => 3,
            AxisIdent::RY => 4,
            AxisIdent::RZ => 5,
        }
    }

    #[verifier::when_used_as_spec(spec_index)]
    pub fn index(self) -> (r: usize)
        ensures
            r == self.spec_index(),
            r < AXIS_LIMIT,
    {
        match self {
            AxisIdent::X => 0,
            AxisIdent::Y => 1,
            AxisIdent::Z => 2,
            AxisIdent::RX => 3,
            AxisIdent::RY => 4,
            AxisIdent::RZ => 5,
        }
    }

    /// The axis kind at table position `v`.
    pub fn from(v: usize) -> (r: Self)
        requires
            v < AXIS_LIMIT,
        ensures
            r.spec_index() == v,
    {
        if v == 0 {
            Self::X
        } else if v == 1 {
            Self::Y
        } else if v == 2 {
            Self::Z
        } else if v == 3 {
            Self::RX
        } else if v == 4 {
            Self::RY
        } else {
            Self::RZ
        }
    }
}

#[derive(Debug, Clone, Copy, PartialEq, Eq)]
pub struct AxisDef {
    pub typ: Axis,
    pub centered: bool,
}

pub type AxisState = i32;

pub type SliderState = i32;

/// One change of one object of a device, named through a profile.
#[derive(Debug, Clone, Copy, PartialEq, Eq)]
pub enum ObjectDiff {
    DPad(DPadState),
    Button(Button, ButtonState),
    Axis(Axis, AxisState),
    Slider(SliderState),
}

/// A device profile: the semantic names of a model's buttons, by ordinal,
/// and of its axes, by axis kind.
pub trait Joystick<const BTN_NUM: usize> {
    /// Whether the model has a D-pad.
    fn dpad() -> bool;

    /// The names of the buttons, in ordinal order.
    fn buttons() -> [Button; BTN_NUM];

    /// The definition of each axis kind the model has, at the kind's index.
    fn axis() -> [Option<AxisDef>; AXIS_LIMIT];
}

} // verus!
