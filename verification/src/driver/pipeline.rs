//! The event pipeline: one step from a notification to the event to
//! publish, and the state that tells whether the producer goes on.

use crate::driver::bits::Bits;
use crate::driver::caps::{button_fields, resolved, Diagnostic};
use crate::driver::registry::{
    attached_status, Attach, DeviceDescriptor, DeviceFilter, DeviceKind, DeviceStatus, Registry,
    StatusView,
};
use crate::driver::report::ReportField;
use crate::driver::{axis_range, slider_range, DriverError, Event};
use crate::AXIS_LIMIT;
use vstd::prelude::*;

verus! {

/// The options of a pipeline.
#[derive(Debug, Clone, Copy, PartialEq, Eq)]
pub struct Config {
    pub device_filter: DeviceFilter,
    /// How many events the channel holds; without a number, any number.
    pub event_buffer_size: Option<usize>,
}

impl Default for Config {
    fn default() -> (r: Self)
        ensures
            r == (Config { device_filter: DeviceFilter::Both, event_buffer_size: None }),
    {
        Config { device_filter: DeviceFilter::Both, event_buffer_size: None }
    }
}

/// What the notification source hands to the pipeline.
pub enum Notification {
    /// A device arrived, with its descriptor or the reason why there is
    /// none.
    Arrival(isize, Result<DeviceDescriptor, DriverError>),
    Removal(isize),
    /// A device sent a report, with the report's fields or the reason why
    /// there are none.
    Data { id: isize, is_sink: bool, fields: Result<Vec<ReportField>, DriverError> },
    /// Something was announced, but the source could not read what.
    Failed(DriverError),
    ShutdownRequested,
}

/// Something worth a line in a log that is no event.
#[derive(Debug, Clone, PartialEq, Eq)]
pub enum Note {
    /// An arrival was dropped: the device is of a kind the driver does not
    /// serve.
    Unsupported(DeviceKind),
    /// An arrival was dropped: the device has more buttons than the
    /// driver's bit vector has positions.
    TooManyButtons,
    /// A device was attached; this is what its descriptor gave to note.
    Resolved(Vec<Diagnostic>),
    /// A device left that was not attached.
    UnknownRemoval,
}

/// What one step of the pipeline yields.
pub struct Step<B: Bits> {
    /// The event to publish, if any.
    pub event: Option<Event<isize, B>>,
    pub note: Option<Note>,
}

/// The producer's state: the registry, the filter, and, once the producer
/// has stopped, how it ended.
pub struct Pipeline<B: Bits> {
    registry: Registry<B>,
    filter: DeviceFilter,
    outcome: Option<Result<(), DriverError>>,
}

/// A `Pipeline` as mathematical values: the registry as a map from
/// identity to status.
pub struct PipelineView {
    pub devices: Map<isize, StatusView>,
    pub filter: DeviceFilter,
    pub outcome: Option<Result<(), DriverError>>,
}

impl PipelineView {
    pub open spec fn running(self) -> bool {
        self.outcome is None
    }

    /// The same pipeline, stopped with `outcome`.
    pub open spec fn stopped(self, outcome: Result<(), DriverError>) -> PipelineView {
        PipelineView { outcome: Some(outcome), ..self }
    }

    /// The same pipeline with these devices.
    pub open spec fn with_devices(self, devices: Map<isize, StatusView>) -> PipelineView {
        PipelineView { devices, ..self }
    }
}

impl<B: Bits> View for Pipeline<B> {
    type V = PipelineView;

    closed spec fn view(&self) -> PipelineView {
        PipelineView { devices: self.registry@, filter: self.filter, outcome: self.outcome }
    }
}

/// What the arrival of device `id` with descriptor `d` does to a running
/// pipeline.
///
/// A device of a kind the filter does not admit is dropped with a note.
/// A descriptor that allows no field in a report gives a warning. A
/// device with more than `cap` buttons is dropped with a note. Any other
/// device is attached: it is in the registry afterwards, as resolved from
/// the descriptor, and the event tells its summary.
pub open spec fn arrival_post<B: Bits>(
    before: PipelineView,
    after: PipelineView,
    step: Step<B>,
    id: isize,
    d: DeviceDescriptor,
    cap: nat,
) -> bool {
    if !before.filter.spec_admits(d.kind) {
        &&& after == before
        &&& step.event is None
        &&& step.note == Some(Note::Unsupported(d.kind))
    } else if d.max_data_count == 0 {
        &&& after == before
        &&& step.event == Some(Event::<isize, B>::Warn(DriverError::Descriptor))
        &&& step.note is None
    } else if button_fields(d.button_caps@).len() > cap {
        &&& after == before
        &&& step.event is None
        &&& step.note == Some(Note::TooManyButtons)
    } else {
        let r = resolved(d.button_caps@, d.value_caps@);
        &&& after == before.with_devices(
            before.devices.insert(
                id,
                attached_status(
                    d.max_data_count,
                    d.pre_parsed_data@,
                    d.button_caps@,
                    d.value_caps@,
                    cap,
                ),
            ),
        )
        &&& step.event matches Some(Event::Attached(device, info)) && {
            &&& device == id
            &&& info.name == d.name
            &&& info.buttons_num == r.specs.button_count
            &&& info.dpad == (r.specs.hats_count > 0)
            &&& forall|slot: int|
                0 <= slot < AXIS_LIMIT ==> #[trigger] info.axis[slot] == axis_range(
                    r.specs.axis,
                    slot,
                )
            &&& info.slider == slider_range(r.specs.sliders)
        }
        &&& step.note matches Some(Note::Resolved(diagnostics)) && diagnostics@ == r.diagnostics
    }
}

/// What the removal of device `id` does to a running pipeline: the device
/// is not in the registry afterwards, and the event says that it left. If
/// it was not attached, the registry is as it was, and a note says so.
pub open spec fn removal_post<B: Bits>(
    before: PipelineView,
    after: PipelineView,
    step: Step<B>,
    id: isize,
) -> bool {
    &&& after == before.with_devices(before.devices.remove(id))
    &&& step.event == Some(Event::<isize, B>::Deattached(id))
    &&& if before.devices.contains_key(id) {
        step.note is None
    } else {
        after == before && step.note == Some(Note::UnknownRemoval)
    }
}

/// What a report of device `id` does to a running pipeline.
///
/// A report of a device that is not attached gives a warning and changes
/// nothing, whatever its fields. A report whose fields could not be read
/// gives a warning with the reason. Any other report is decoded: the
/// device, which is well formed, keeps the new snapshot, and the event
/// says what changed.
pub open spec fn data_post<B: Bits>(
    before: PipelineView,
    after: PipelineView,
    step: Step<B>,
    id: isize,
    is_sink: bool,
    fields: Result<Vec<ReportField>, DriverError>,
) -> bool {
    &&& step.note is None
    &&& if !before.devices.contains_key(id) {
        &&& after == before
        &&& step.event == Some(Event::<isize, B>::Warn(DriverError::UnknownDevice(id)))
    } else {
        match fields {
            Err(e) => {
                &&& after == before
                &&& step.event == Some(Event::<isize, B>::Warn(e))
            },
            Ok(f) => {
                &&& before.devices[id].wf()
                &&& after == before.with_devices(
                    before.devices.insert(id, before.devices[id].after(f@)),
                )
                &&& step.event matches Some(Event::StateDiff { id: device, is_sink: sink, diff })
                    && {
                    &&& device == id
                    &&& sink == is_sink
                    &&& diff@ == before.devices[id].diff(f@)
                }
            },
        }
    }
}

/// What one notification does to a pipeline.
///
/// A stopped pipeline stays as it is and yields nothing. A running one
/// stops with the error if waiting failed, stops in good order if
/// shutdown was requested, and otherwise serves the notification and runs
/// on: what the source could not read gives a warning with the reason.
pub open spec fn step_post<B: Bits>(
    before: PipelineView,
    after: PipelineView,
    step: Step<B>,
    n: Result<Notification, DriverError>,
    cap: nat,
) -> bool {
    if !before.running() {
        after == before && step.event is None && step.note is None
    } else {
        match n {
            Err(e) => after == before.stopped(Err(e)) && step.event is None && step.note is None,
            Ok(Notification::ShutdownRequested) => after == before.stopped(Ok(()))
                && step.event is None && step.note is None,
            Ok(Notification::Failed(e)) => {
                &&& after == before
                &&& step.event == Some(Event::<isize, B>::Warn(e))
                &&& step.note is None
            },
            Ok(Notification::Arrival(id, Err(e))) => {
                &&& after == before
                &&& step.event == Some(Event::<isize, B>::Warn(e))
                &&& step.note is None
            },
            Ok(Notification::Arrival(id, Ok(d))) => arrival_post(before, after, step, id, d, cap),
            Ok(Notification::Removal(id)) => removal_post(before, after, step, id),
            Ok(Notification::Data { id, is_sink, fields }) => data_post(
                before,
                after,
                step,
                id,
                is_sink,
                fields,
            ),
        }
    }
}

impl<B: Bits> Pipeline<B> {
    /// A running pipeline without devices.
    pub fn new(config: &Config) -> (p: Self)
        ensures
            p@ == (PipelineView {
                devices: Map::empty(),
                filter: config.device_filter,
                outcome: None,
            }),
    {
        Pipeline { registry: Registry::new(), filter: config.device_filter, outcome: None }
    }

    /// Whether the producer goes on.
    pub fn is_running(&self) -> (r: bool)
        ensures
            r == self@.running(),
    {
        self.outcome.is_none()
    }

    /// The status of device `id`, if it is attached: what the report
    /// source needs to take a raw report of the device apart.
    pub fn device(&self, id: isize) -> (r: Option<&DeviceStatus<B>>)
        ensures
            match r {
                Some(status) => self@.devices.contains_key(id) && status@ == self@.devices[id],
                None => !self@.devices.contains_key(id),
            },
    {
        self.registry.get(id)
    }

    /// Serves one notification, or the failure to wait for one.
    pub fn step(&mut self, n: Result<Notification, DriverError>) -> (step: Step<B>)
        ensures
            step_post(old(self)@, final(self)@, step, n, B::CAP as nat),
    {
        if self.outcome.is_some() {
            return Step { event: None, note: None };
        }
        match n {
            Err(e) => {
                self.outcome = Some(Err(e));
                Step { event: None, note: None }
            },
            Ok(Notification::ShutdownRequested) => {
                self.outcome = Some(Ok(()));
                Step { event: None, note: None }
            },
            Ok(Notification::Failed(e)) => Step { event: Some(Event::Warn(e)), note: None },
            Ok(Notification::Arrival(id, Err(e))) => Step {
                event: Some(Event::Warn(e)),
                note: None,
            },
            Ok(Notification::Arrival(id, Ok(d))) => {
                if !self.filter.admits(d.kind) {
                    return Step { event: None, note: Some(Note::Unsupported(d.kind)) };
                }
                match self.registry.attach(id, d) {
                    Attach::NoData => Step {
                        event: Some(Event::Warn(DriverError::Descriptor)),
                        note: None,
                    },
                    Attach::TooManyButtons => Step {
                        event: None,
                        note: Some(Note::TooManyButtons),
                    },
                    Attach::Attached { info, diagnostics } => Step {
                        event: Some(Event::Attached(id, info)),
                        note: Some(Note::Resolved(diagnostics)),
                    },
                }
            },
            Ok(Notification::Removal(id)) => {
                let was_attached = self.registry.detach(id);
                Step {
                    event: Some(Event::Deattached(id)),
                    note: if was_attached {
                        None
                    } else {
                        Some(Note::UnknownRemoval)
                    },
                }
            },
            Ok(Notification::Data { id, is_sink, fields }) => {
                if !self.registry.contains(id) {
                    return Step {
                        event: Some(Event::Warn(DriverError::UnknownDevice(id))),
                        note: None,
                    };
                }
                match fields {
                    Err(e) => Step { event: Some(Event::Warn(e)), note: None },
                    Ok(f) => match self.registry.report(id, &f) {
                        Some(diff) => Step {
                            event: Some(Event::StateDiff { id, is_sink, diff }),
                            note: None,
                        },
                        None => Step {
                            event: Some(Event::Warn(DriverError::UnknownDevice(id))),
                            note: None,
                        },
                    },
                }
            },
        }
    }

    /// Tells the pipeline whether the event of the last step reached the
    /// channel. A running pipeline stops with `ChannelBroken` if it did
    /// not; nothing else changes.
    pub fn published(&mut self, delivered: bool)
        ensures
            final(self)@ == (if old(self)@.running() && !delivered {
                old(self)@.stopped(Err(DriverError::ChannelBroken))
            } else {
                old(self)@
            }),
    {
        if self.outcome.is_none() && !delivered {
            self.outcome = Some(Err(DriverError::ChannelBroken));
        }
    }

    /// The last event of the stream: how the producer ended. A pipeline
    /// that is still running ends in good order.
    pub fn finish(self) -> (e: Event<isize, B>)
        ensures
            e == Event::<isize, B>::Interruption(
                match self@.outcome {
                    Some(outcome) => outcome,
                    None => Ok(()),
                },
            ),
    {
        match self.outcome {
            Some(outcome) => Event::Interruption(outcome),
            None => Event::Interruption(Ok(())),
        }
    }
}

} // verus!
