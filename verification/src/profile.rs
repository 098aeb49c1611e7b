//! Profiles of device models.

use crate::{Axis, AxisDef, Button, Joystick, AXIS_LIMIT};
use vstd::prelude::*;

verus! {

/// The compact PlayStation 4 controller layout.
#[derive(Debug, Default, Clone, Copy)]
pub struct PS4Compact;

impl PS4Compact {
    pub open spec fn spec_buttons() -> [Button; 14] {
        [
            Button::West,
            Button::South,
            Button::East,
            Button::North,
            Button::LShoulder,
            Button::RShoulder,
            Button::LTrigger,
            Button::RTrigger,
            Button::Select,
            Button::Start,
            Button::LThumb,
            Button::RThumb,
            Button::Mode,
            Button::Other("TrackPad"),
        ]
    }

    pub open spec fn spec_axis() -> [Option<AxisDef>; AXIS_LIMIT] {
        [
            Some(AxisDef { typ: Axis::LThumbX, centered: true }),
            Some(AxisDef { typ: Axis::LThumbY, centered: true }),
            Some(AxisDef { typ: Axis::RThumbX, centered: true }),
            Some(AxisDef { typ: Axis::LTrigger, centered: false }),
            Some(AxisDef { typ: Axis::RTrigger, centered: false }),
            Some(AxisDef { typ: Axis::RThumbY, centered: true }),
        ]
    }
}

impl Joystick<14> for PS4Compact {
    fn dpad() -> (r: bool)
        ensures
            r,
    {
        true
    }

    fn buttons() -> (r: [Button; 14])
        ensures
            r == PS4Compact::spec_buttons(),
    {
        [
            Button::West,
            Button::South,
            Button::East,
            Button::North,
            Button::LShoulder,
            Button::RShoulder,
            Button::LTrigger,
            Button::RTrigger,
            Button::Select,
            Button::Start,
            Button::LThumb,
            Button::RThumb,
            Button::Mode,
            Button::Other("TrackPad"),
        ]
    }

    fn axis() -> (r: [Option<AxisDef>; AXIS_LIMIT])
        ensures
            r == PS4Compact::spec_axis(),
    {
        [
            Some(AxisDef { typ: Axis::LThumbX, centered: true }),
            Some(AxisDef { typ: Axis::LThumbY, centered: true }),
            Some(AxisDef { typ: Axis::RThumbX, centered: true }),
            Some(AxisDef { typ: Axis::LTrigger, centered: false }),
            Some(AxisDef { typ: Axis::RTrigger, centered: false }),
            Some(AxisDef { typ: Axis::RThumbY, centered: true }),
        ]
    }
}

} // verus!
