//! The driver's model of a device and the events it publishes.

use crate::driver::caps::DeviceSpecs;
use crate::{AxisIdent, AXIS_LIMIT};
use std::fmt::Debug;
use vstd::prelude::*;

pub mod bits;
pub mod caps;
pub mod diff;
pub mod pipeline;
pub mod rawinput;
pub mod registry;
pub mod report;

pub use bits::{Bits, B256};
pub use diff::StateDiff;

verus! {

/// What a consumer is told of a device when it is attached.
#[derive(Debug, Clone, PartialEq, Eq)]
pub struct DeviceInfo {
    pub name: String,
    pub buttons_num: usize,
    pub dpad: bool,
    /// The value range of each axis kind the device has, at the kind's index.
    pub axis: [Option<(i32, i32)>; AXIS_LIMIT],
    pub slider: Option<(i32, i32)>,
}

/// The value range of the last axis of the kind at table position `slot`,
/// if the device has such an axis.
pub open spec fn axis_range(axis: Seq<(AxisIdent, (i32, i32))>, slot: int) -> Option<(i32, i32)>
    decreases axis.len(),
{
    if axis.len() == 0 {
        None
    } else if axis.last().0.spec_index() == slot {
        Some(axis.last().1)
    } else {
        axis_range(axis.drop_last(), slot)
    }
}

/// The value range of the last slider, if the device has a slider.
pub open spec fn slider_range(sliders: Seq<(i32, i32)>) -> Option<(i32, i32)> {
    if sliders.len() == 0 {
        None
    } else {
        Some(sliders.last())
    }
}

impl DeviceInfo {
    /// The public summary of a device with this name and these objects.
    pub fn summarize(name: String, specs: &DeviceSpecs) -> (info: DeviceInfo)
        ensures
            info.name == name,
            info.buttons_num == specs.button_count,
            info.dpad == (specs.hats_count > 0),
            forall|slot: int|
                0 <= slot < AXIS_LIMIT ==> #[trigger] info.axis[slot] == axis_range(
                    specs.axis@,
                    slot,
                ),
            info.slider == slider_range(specs.sliders@),
    {
        let mut axis: [Option<(i32, i32)>; AXIS_LIMIT] = [None, None, None, None, None, None];
        let mut i: usize = 0;
        while i < specs.axis.len()
            invariant
                i <= specs.axis.len(),
                forall|slot: int|
                    0 <= slot < AXIS_LIMIT ==> #[trigger] axis[slot] == axis_range(
                        specs.axis@.take(i as int),
                        slot,
                    ),
            decreases specs.axis.len() - i,
        {
            proof {
                assert(specs.axis@.take(i + 1).drop_last() =~= specs.axis@.take(i as int));
            }
            let entry = specs.axis[i];
            axis[entry.0.index()] = Some(entry.1);
            i = i + 1;
        }
        assert(specs.axis@.take(i as int) =~= specs.axis@);
        let slider = if specs.sliders.len() == 0 {
            None
        } else {
            Some(specs.sliders[specs.sliders.len() - 1])
        };
        DeviceInfo {
            name,
            buttons_num: specs.button_count,
            dpad: specs.hats_count > 0,
            axis,
            slider,
        }
    }
}

/// Why a notification could not be served, or why the driver stopped.
#[derive(Debug, Clone, Copy, PartialEq, Eq)]
pub enum DriverError {
    /// The notification source could not be set up.
    Setup,
    /// The content of a notification could not be read.
    Notification,
    /// The capability source could not deliver the descriptor of a device.
    Descriptor,
    /// The report source could not take a raw report apart.
    Report,
    /// A report came from a device that is not attached.
    UnknownDevice(isize),
    /// Waiting for the next notification failed.
    Wait,
    /// Nobody receives the events any more.
    ChannelBroken,
}

/// What the driver publishes.
pub enum Event<DI: Debug + PartialEq, B: Bits> {
    Attached(DI, DeviceInfo),
    Deattached(DI),
    StateDiff { id: DI, is_sink: bool, diff: StateDiff<B> },
    /// Something went wrong with one notification; the stream goes on.
    Warn(DriverError),
    /// The stream ends here, in good order or with an error.
    Interruption(Result<(), DriverError>),
}

} // verus!
