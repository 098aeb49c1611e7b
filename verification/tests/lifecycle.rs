use joystick_rs::driver::caps::{
    resolve, Capability, DeviceObjectIndex, DeviceSpecs, Diagnostic, FieldSpan,
};
use joystick_rs::driver::diff::OrdinalDiff;
use joystick_rs::driver::pipeline::{Config, Note, Notification, Pipeline, Step};
use joystick_rs::driver::registry::{
    Attach, DeviceDescriptor, DeviceFilter, DeviceKind, DeviceStatus, Registry, DEVICE_TYPE_HID,
};
use joystick_rs::driver::report::{DeviceObjectStates, ReportField};
use joystick_rs::driver::{DeviceInfo, DriverError, Event, StateDiff, B256};
use joystick_rs::profile::PS4Compact;
use joystick_rs::{AxisIdent, Button, ButtonState, DPadState, ObjectDiff};

const D1: isize = 0x1001;
const D2: isize = 0x2002;

fn joystick_kind() -> DeviceKind {
    DeviceKind { device_type: DEVICE_TYPE_HID, usage_page: 1, usage: 4 }
}

fn two_buttons_one_axis() -> DeviceDescriptor {
    DeviceDescriptor {
        name: String::from("stick"),
        kind: joystick_kind(),
        max_data_count: 3,
        pre_parsed_data: vec![1, 2, 3, 4],
        button_caps: vec![Capability {
            usage_page: 9,
            span: FieldSpan::Range { index_min: 0, index_max: 1, usage_min: 1, usage_max: 2 },
            logical_min: 0,
            logical_max: 1,
        }],
        value_caps: vec![Capability {
            usage_page: 1,
            span: FieldSpan::Single { index: 2, usage: 0x30 },
            logical_min: 0,
            logical_max: 255,
        }],
    }
}

fn with_hat() -> DeviceDescriptor {
    let mut d = two_buttons_one_axis();
    d.value_caps.push(Capability {
        usage_page: 1,
        span: FieldSpan::Single { index: 3, usage: 0x39 },
        logical_min: 0,
        logical_max: 7,
    });
    d
}

fn many_buttons(n: u16) -> DeviceDescriptor {
    let mut d = two_buttons_one_axis();
    d.button_caps = vec![Capability {
        usage_page: 9,
        span: FieldSpan::Range { index_min: 10, index_max: 10 + n - 1, usage_min: 1, usage_max: n },
        logical_min: 0,
        logical_max: 1,
    }];
    d
}

fn field(index: u16, raw_value: u32, on: bool) -> ReportField {
    ReportField { index, raw_value, on }
}

fn data(id: isize, fields: Vec<ReportField>) -> Result<Notification, DriverError> {
    Ok(Notification::Data { id, is_sink: false, fields: Ok(fields) })
}

fn diff_of<B: joystick_rs::driver::Bits>(step: Step<B>, id: isize, is_sink: bool) -> StateDiff<B> {
    match step.event {
        Some(Event::StateDiff { id: device, is_sink: sink, diff }) => {
            assert_eq!(device, id);
            assert_eq!(sink, is_sink);
            diff
        }
        _ => panic!("no state diff"),
    }
}

#[test]
fn arrival_then_first_report_presses_one_button() {
    let mut p: Pipeline<u32> = Pipeline::new(&Config::default());
    let step = p.step(Ok(Notification::Arrival(D1, Ok(two_buttons_one_axis()))));
    match step.event {
        Some(Event::Attached(id, info)) => {
            assert_eq!(id, D1);
            assert_eq!(
                info,
                DeviceInfo {
                    name: String::from("stick"),
                    buttons_num: 2,
                    dpad: false,
                    axis: [Some((0, 255)), None, None, None, None, None],
                    slider: None,
                }
            );
        }
        _ => panic!("not attached"),
    }
    assert_eq!(step.note, Some(Note::Resolved(Vec::new())));
    {
        let status = p.device(D1).unwrap();
        assert_eq!(
            *status.specs(),
            DeviceSpecs { button_count: 2, axis: vec![(AxisIdent::X, (0, 255))], sliders: vec![], hats_count: 0 }
        );
        assert_eq!(status.states().buttons, vec![ButtonState::Released, ButtonState::Released]);
        assert_eq!(status.pre_parsed_data(), &vec![1u8, 2, 3, 4]);
        assert_eq!(status.max_data_count(), 3);
    }

    let step = p.step(data(D1, vec![field(0, 1, true)]));
    assert_eq!(step.note, None);
    let diff = diff_of(step, D1, false);
    assert_eq!(diff.ordinal_diffs(), vec![OrdinalDiff::Button(0, ButtonState::Pressed)]);
    assert_eq!(diff.diffs::<14, PS4Compact>(), vec![ObjectDiff::Button(Button::West, ButtonState::Pressed)]);
    let status = p.device(D1).unwrap();
    assert_eq!(
        *status.states(),
        DeviceObjectStates {
            buttons: vec![ButtonState::Pressed, ButtonState::Released],
            axis: vec![None],
            sliders: vec![],
            hats: vec![],
        }
    );
}

#[test]
fn consecutive_reports_diff_against_the_last_snapshot() {
    let mut p: Pipeline<u32> = Pipeline::new(&Config::default());
    p.step(Ok(Notification::Arrival(D1, Ok(with_hat()))));
    let first = diff_of(p.step(data(D1, vec![field(0, 1, true), field(2, 128, false), field(3, 0, false)])), D1, false);
    assert_eq!(
        first.ordinal_diffs(),
        vec![
            OrdinalDiff::DPad(DPadState::Up),
            OrdinalDiff::Button(0, ButtonState::Pressed),
            OrdinalDiff::Axis(AxisIdent::X, 128),
        ]
    );
    let second = diff_of(p.step(data(D1, vec![field(0, 1, true), field(1, 1, true), field(3, 0, false)])), D1, false);
    assert_eq!(second.ordinal_diffs(), vec![OrdinalDiff::Button(1, ButtonState::Pressed)]);
    let third = diff_of(p.step(data(D1, vec![field(1, 1, true)])), D1, false);
    assert_eq!(
        third.ordinal_diffs(),
        vec![OrdinalDiff::DPad(DPadState::Null), OrdinalDiff::Button(0, ButtonState::Released)]
    );
    let fourth = diff_of(p.step(data(D1, vec![field(1, 1, true)])), D1, false);
    assert!(fourth.ordinal_diffs().is_empty());
}

#[test]
fn sink_flag_is_passed_on() {
    let mut p: Pipeline<u32> = Pipeline::new(&Config::default());
    p.step(Ok(Notification::Arrival(D1, Ok(two_buttons_one_axis()))));
    let step = p.step(Ok(Notification::Data { id: D1, is_sink: true, fields: Ok(vec![field(1, 1, true)]) }));
    let diff = diff_of(step, D1, true);
    assert_eq!(diff.ordinal_diffs(), vec![OrdinalDiff::Button(1, ButtonState::Pressed)]);
}

#[test]
fn report_of_an_unknown_device_is_a_warning() {
    let mut p: Pipeline<u32> = Pipeline::new(&Config::default());
    let step = p.step(data(D1, vec![field(0, 1, true)]));
    assert!(matches!(step.event, Some(Event::Warn(DriverError::UnknownDevice(D1)))));
    assert_eq!(step.note, None);
    assert!(p.device(D1).is_none());
    assert!(p.is_running());
    let step = p.step(Ok(Notification::Data { id: D2, is_sink: true, fields: Err(DriverError::Report) }));
    assert!(matches!(step.event, Some(Event::Warn(DriverError::UnknownDevice(D2)))));
}

#[test]
fn unreadable_report_is_a_warning_and_changes_nothing() {
    let mut p: Pipeline<u32> = Pipeline::new(&Config::default());
    p.step(Ok(Notification::Arrival(D1, Ok(two_buttons_one_axis()))));
    p.step(data(D1, vec![field(0, 1, true)]));
    let step = p.step(Ok(Notification::Data { id: D1, is_sink: false, fields: Err(DriverError::Report) }));
    assert!(matches!(step.event, Some(Event::Warn(DriverError::Report))));
    assert_eq!(
        p.device(D1).unwrap().states().buttons,
        vec![ButtonState::Pressed, ButtonState::Released]
    );
    assert!(p.is_running());
}

#[test]
fn removal_of_an_absent_device_still_says_it_left() {
    let mut p: Pipeline<u32> = Pipeline::new(&Config::default());
    p.step(Ok(Notification::Arrival(D1, Ok(two_buttons_one_axis()))));
    let step = p.step(Ok(Notification::Removal(D2)));
    assert!(matches!(step.event, Some(Event::Deattached(D2))));
    assert_eq!(step.note, Some(Note::UnknownRemoval));
    assert!(p.device(D1).is_some());
    assert!(p.device(D2).is_none());
    assert!(p.is_running());
    let again = p.step(Ok(Notification::Removal(D2)));
    assert!(matches!(again.event, Some(Event::Deattached(D2))));
    assert_eq!(again.note, Some(Note::UnknownRemoval));
    assert!(p.device(D1).is_some());
}

#[test]
fn removal_takes_the_device_out() {
    let mut p: Pipeline<u32> = Pipeline::new(&Config::default());
    p.step(Ok(Notification::Arrival(D1, Ok(two_buttons_one_axis()))));
    p.step(Ok(Notification::Arrival(D2, Ok(with_hat()))));
    let step = p.step(Ok(Notification::Removal(D1)));
    assert!(matches!(step.event, Some(Event::Deattached(D1))));
    assert_eq!(step.note, None);
    assert!(p.device(D1).is_none());
    assert!(p.device(D2).is_some());
    let step = p.step(data(D1, Vec::new()));
    assert!(matches!(step.event, Some(Event::Warn(DriverError::UnknownDevice(D1)))));
}

#[test]
fn arrival_without_descriptor_is_a_warning() {
    let mut p: Pipeline<u32> = Pipeline::new(&Config::default());
    let step = p.step(Ok(Notification::Arrival(D1, Err(DriverError::Descriptor))));
    assert!(matches!(step.event, Some(Event::Warn(DriverError::Descriptor))));
    assert_eq!(step.note, None);
    assert!(p.device(D1).is_none());
    assert!(p.is_running());
}

#[test]
fn unreadable_notification_is_a_warning() {
    let mut p: Pipeline<u32> = Pipeline::new(&Config::default());
    p.step(Ok(Notification::Arrival(D1, Ok(two_buttons_one_axis()))));
    let step = p.step(Ok(Notification::Failed(DriverError::Notification)));
    assert!(matches!(step.event, Some(Event::Warn(DriverError::Notification))));
    assert_eq!(step.note, None);
    assert!(p.device(D1).is_some());
    assert!(p.is_running());
}

#[test]
fn failed_setup_stops_the_pipeline_with_the_error() {
    let mut p: Pipeline<u32> = Pipeline::new(&Config::default());
    let step = p.step(Err(DriverError::Setup));
    assert!(step.event.is_none());
    assert!(!p.is_running());
    assert!(matches!(p.finish(), Event::Interruption(Err(DriverError::Setup))));
}

#[test]
fn arrival_of_an_unsupported_kind_is_dropped() {
    let mut p: Pipeline<u32> = Pipeline::new(&Config::default());
    let mut d = two_buttons_one_axis();
    d.kind = DeviceKind { device_type: DEVICE_TYPE_HID, usage_page: 1, usage: 6 };
    d.max_data_count = 0;
    let kind = d.kind;
    let step = p.step(Ok(Notification::Arrival(D1, Ok(d))));
    assert!(step.event.is_none());
    assert_eq!(step.note, Some(Note::Unsupported(kind)));
    assert!(p.device(D1).is_none());
}

#[test]
fn filter_of_the_config_decides_what_is_served() {
    let config = Config { device_filter: DeviceFilter::Gamepad, event_buffer_size: Some(8) };
    let mut p: Pipeline<u32> = Pipeline::new(&config);
    let step = p.step(Ok(Notification::Arrival(D1, Ok(two_buttons_one_axis()))));
    assert!(step.event.is_none());
    assert_eq!(step.note, Some(Note::Unsupported(joystick_kind())));
    let mut pad = two_buttons_one_axis();
    pad.kind.usage = 5;
    let step = p.step(Ok(Notification::Arrival(D2, Ok(pad))));
    assert!(matches!(step.event, Some(Event::Attached(D2, _))));
}

#[test]
fn arrival_without_room_for_fields_is_a_warning() {
    let mut p: Pipeline<u32> = Pipeline::new(&Config::default());
    let mut d = two_buttons_one_axis();
    d.max_data_count = 0;
    let step = p.step(Ok(Notification::Arrival(D1, Ok(d))));
    assert!(matches!(step.event, Some(Event::Warn(DriverError::Descriptor))));
    assert_eq!(step.note, None);
    assert!(p.device(D1).is_none());
}

#[test]
fn arrival_with_too_many_buttons_is_dropped() {
    let mut p: Pipeline<u32> = Pipeline::new(&Config::default());
    let step = p.step(Ok(Notification::Arrival(D1, Ok(many_buttons(33)))));
    assert!(step.event.is_none());
    assert_eq!(step.note, Some(Note::TooManyButtons));
    assert!(p.device(D1).is_none());
    let step = p.step(Ok(Notification::Arrival(D1, Ok(many_buttons(32)))));
    assert!(matches!(step.event, Some(Event::Attached(D1, _))));
}

#[test]
fn wide_bit_vector_serves_devices_with_many_buttons() {
    let mut p: Pipeline<B256> = Pipeline::new(&Config::default());
    let step = p.step(Ok(Notification::Arrival(D1, Ok(many_buttons(256)))));
    assert!(matches!(step.event, Some(Event::Attached(D1, _))));
    let diff = diff_of(p.step(data(D1, vec![field(10 + 255, 1, true), field(10 + 128, 1, true)])), D1, false);
    assert_eq!(
        diff.ordinal_diffs(),
        vec![OrdinalDiff::Button(128, ButtonState::Pressed), OrdinalDiff::Button(255, ButtonState::Pressed)]
    );
    let mut q: Pipeline<B256> = Pipeline::new(&Config::default());
    let step = q.step(Ok(Notification::Arrival(D1, Ok(many_buttons(257)))));
    assert!(step.event.is_none());
    assert_eq!(step.note, Some(Note::TooManyButtons));
}

#[test]
fn arrival_reports_what_the_resolver_noted() {
    let mut p: Pipeline<u32> = Pipeline::new(&Config::default());
    let mut d = two_buttons_one_axis();
    d.value_caps.push(Capability {
        usage_page: 1,
        span: FieldSpan::Single { index: 1, usage: 0x39 },
        logical_min: 1,
        logical_max: 8,
    });
    let step = p.step(Ok(Notification::Arrival(D1, Ok(d))));
    assert!(matches!(step.event, Some(Event::Attached(D1, _))));
    assert_eq!(
        step.note,
        Some(Note::Resolved(vec![
            Diagnostic::HatRange { min: 1, max: 8 },
            Diagnostic::DuplicateIndex { index: 1, previous: DeviceObjectIndex::Button(1) },
        ]))
    );
}

#[test]
fn second_arrival_replaces_the_device() {
    let mut p: Pipeline<u32> = Pipeline::new(&Config::default());
    p.step(Ok(Notification::Arrival(D1, Ok(two_buttons_one_axis()))));
    p.step(data(D1, vec![field(0, 1, true)]));
    p.step(Ok(Notification::Arrival(D1, Ok(with_hat()))));
    let status = p.device(D1).unwrap();
    assert_eq!(status.specs().hats_count, 1);
    assert_eq!(status.states().buttons, vec![ButtonState::Released, ButtonState::Released]);
}

#[test]
fn shutdown_stops_the_pipeline() {
    let mut p: Pipeline<u32> = Pipeline::new(&Config::default());
    p.step(Ok(Notification::Arrival(D1, Ok(two_buttons_one_axis()))));
    assert!(p.is_running());
    let step = p.step(Ok(Notification::ShutdownRequested));
    assert!(step.event.is_none());
    assert_eq!(step.note, None);
    assert!(!p.is_running());
    let after = p.step(data(D1, vec![field(0, 1, true)]));
    assert!(after.event.is_none());
    assert_eq!(
        p.device(D1).unwrap().states().buttons,
        vec![ButtonState::Released, ButtonState::Released]
    );
    let after = p.step(Ok(Notification::Removal(D1)));
    assert!(after.event.is_none());
    assert!(p.device(D1).is_some());
    assert!(matches!(p.finish(), Event::Interruption(Ok(()))));
}

#[test]
fn failed_wait_stops_the_pipeline_with_the_error() {
    let mut p: Pipeline<u32> = Pipeline::new(&Config::default());
    let step = p.step(Err(DriverError::Wait));
    assert!(step.event.is_none());
    assert!(!p.is_running());
    let later = p.step(Ok(Notification::ShutdownRequested));
    assert!(later.event.is_none());
    assert!(matches!(p.finish(), Event::Interruption(Err(DriverError::Wait))));
}

#[test]
fn broken_channel_stops_the_pipeline() {
    let mut p: Pipeline<u32> = Pipeline::new(&Config::default());
    p.published(true);
    assert!(p.is_running());
    p.published(false);
    assert!(!p.is_running());
    p.published(true);
    assert!(matches!(p.finish(), Event::Interruption(Err(DriverError::ChannelBroken))));
}

#[test]
fn first_stop_reason_stays() {
    let mut p: Pipeline<u32> = Pipeline::new(&Config::default());
    p.step(Ok(Notification::ShutdownRequested));
    p.published(false);
    p.step(Err(DriverError::Wait));
    assert!(matches!(p.finish(), Event::Interruption(Ok(()))));
}

#[test]
fn running_pipeline_finishes_in_good_order() {
    let p: Pipeline<u32> = Pipeline::new(&Config::default());
    assert!(matches!(p.finish(), Event::Interruption(Ok(()))));
}

#[test]
fn registry_attach_detach_report() {
    let mut r: Registry<u32> = Registry::new();
    assert!(!r.contains(D1));
    assert!(r.report(D1, &Vec::new()).is_none());
    assert!(!r.detach(D1));
    match r.attach(D1, two_buttons_one_axis()) {
        Attach::Attached { info, diagnostics } => {
            assert_eq!(info.buttons_num, 2);
            assert!(diagnostics.is_empty());
        }
        _ => panic!("not attached"),
    }
    assert!(r.contains(D1));
    assert!(r.get(D1).is_some());
    assert!(r.get(D2).is_none());
    let diff = r.report(D1, &vec![field(1, 1, true), field(2, 7, false)]).unwrap();
    assert_eq!(
        diff.ordinal_diffs(),
        vec![OrdinalDiff::Button(1, ButtonState::Pressed), OrdinalDiff::Axis(AxisIdent::X, 7)]
    );
    assert!(matches!(r.attach(D2, many_buttons(40)), Attach::TooManyButtons));
    let mut none = two_buttons_one_axis();
    none.max_data_count = 0;
    assert!(matches!(r.attach(D2, none), Attach::NoData));
    assert!(!r.contains(D2));
    assert!(r.detach(D1));
    assert!(!r.contains(D1));
    assert!(!r.detach(D1));
}

#[test]
fn status_advances_from_snapshot_to_snapshot() {
    let d = with_hat();
    let r = resolve(&d.button_caps, &d.value_caps, 32).unwrap();
    let status: DeviceStatus<u32> = DeviceStatus::new(7, vec![9, 8], r.mapping, r.specs).unwrap();
    assert_eq!(status.max_data_count(), 7);
    assert_eq!(status.pre_parsed_data(), &vec![9u8, 8]);
    assert_eq!(status.specs().button_count, 2);
    assert_eq!(*status.states(), DeviceObjectStates::new(status.specs()));
    let (status, diff) = status.advance(&vec![field(1, 1, true), field(3, 6, false)]);
    assert_eq!(
        diff.ordinal_diffs(),
        vec![OrdinalDiff::DPad(DPadState::Left), OrdinalDiff::Button(1, ButtonState::Pressed)]
    );
    assert_eq!(status.states().hats, vec![DPadState::Left]);
    let (status, diff) = status.advance(&vec![field(3, 6, false), field(2, 0, false)]);
    assert_eq!(
        diff.ordinal_diffs(),
        vec![OrdinalDiff::Button(1, ButtonState::Released), OrdinalDiff::Axis(AxisIdent::X, 0)]
    );
    assert_eq!(status.states().buttons, vec![ButtonState::Released, ButtonState::Released]);
    assert_eq!(status.states().axis, vec![Some(0)]);
    assert_eq!(status.max_data_count(), 7);
}

#[test]
fn status_needs_a_position_for_each_button() {
    let d = many_buttons(33);
    let r = resolve(&d.button_caps, &d.value_caps, 64).unwrap();
    assert!(DeviceStatus::<u32>::new(1, Vec::new(), r.mapping, r.specs).is_none());
    let r = resolve(&d.button_caps, &d.value_caps, 64).unwrap();
    assert!(DeviceStatus::<u64>::new(1, Vec::new(), r.mapping, r.specs).is_some());
}
