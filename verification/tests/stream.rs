use crossbeam_channel::{bounded, unbounded, Receiver, Sender, TryRecvError};
use joystick_rs::driver::caps::{Capability, FieldSpan};
use joystick_rs::driver::diff::OrdinalDiff;
use joystick_rs::driver::pipeline::{Config, Notification, Pipeline};
use joystick_rs::driver::registry::{DeviceDescriptor, DeviceKind, DEVICE_TYPE_HID};
use joystick_rs::driver::report::ReportField;
use joystick_rs::driver::{DriverError, Event};
use joystick_rs::ButtonState;

fn pad() -> DeviceDescriptor {
    DeviceDescriptor {
        name: String::from("pad"),
        kind: DeviceKind { device_type: DEVICE_TYPE_HID, usage_page: 1, usage: 5 },
        max_data_count: 4,
        pre_parsed_data: Vec::new(),
        button_caps: vec![Capability {
            usage_page: 9,
            span: FieldSpan::Range { index_min: 0, index_max: 3, usage_min: 1, usage_max: 4 },
            logical_min: 0,
            logical_max: 1,
        }],
        value_caps: Vec::new(),
    }
}

fn press(id: isize, index: u16) -> Result<Notification, DriverError> {
    Ok(Notification::Data {
        id,
        is_sink: false,
        fields: Ok(vec![ReportField { index, raw_value: 1, on: true }]),
    })
}

/// Runs a producer over the notifications until the pipeline stops or the
/// notifications end, then sends the last event and lets go of the channel.
fn produce(
    notifications: Vec<Result<Notification, DriverError>>,
    tx: Sender<Event<isize, u32>>,
) {
    let mut pipeline: Pipeline<u32> = Pipeline::new(&Config::default());
    for notification in notifications {
        if !pipeline.is_running() {
            break;
        }
        let step = pipeline.step(notification);
        if let Some(event) = step.event {
            let delivered = tx.try_send(event).is_ok();
            pipeline.published(delivered);
        }
    }
    let _ = tx.try_send(pipeline.finish());
}

fn drain(rx: &Receiver<Event<isize, u32>>) -> Vec<Event<isize, u32>> {
    let mut events = Vec::new();
    while let Ok(event) = rx.try_recv() {
        events.push(event);
    }
    events
}

#[test]
fn closing_ends_the_stream_in_good_order() {
    let (tx, rx) = unbounded();
    produce(
        vec![
            Ok(Notification::Arrival(7, Ok(pad()))),
            press(7, 2),
            Ok(Notification::ShutdownRequested),
            press(7, 3),
        ],
        tx,
    );
    let events = drain(&rx);
    assert_eq!(events.len(), 3);
    assert!(matches!(events[0], Event::Attached(7, _)));
    match &events[1] {
        Event::StateDiff { id, is_sink, diff } => {
            assert_eq!(*id, 7);
            assert!(!*is_sink);
            assert_eq!(diff.ordinal_diffs(), vec![OrdinalDiff::Button(2, ButtonState::Pressed)]);
        }
        _ => panic!("no state diff"),
    }
    assert!(matches!(events[2], Event::Interruption(Ok(()))));
    assert_eq!(rx.try_recv().err(), Some(TryRecvError::Disconnected));
    assert!(rx.recv().is_err());
}

#[test]
fn failed_wait_ends_the_stream_with_the_error() {
    let (tx, rx) = unbounded();
    produce(vec![Ok(Notification::Removal(3)), Err(DriverError::Wait), press(3, 0)], tx);
    let events = drain(&rx);
    assert_eq!(events.len(), 2);
    assert!(matches!(events[0], Event::Deattached(3)));
    assert!(matches!(events[1], Event::Interruption(Err(DriverError::Wait))));
    assert!(rx.recv().is_err());
}

#[test]
fn events_of_one_device_keep_the_order_of_the_notifications() {
    let (tx, rx) = unbounded();
    produce(
        vec![
            press(7, 0),
            Ok(Notification::Arrival(7, Ok(pad()))),
            press(7, 0),
            Ok(Notification::Removal(7)),
            press(7, 1),
        ],
        tx,
    );
    let events = drain(&rx);
    assert_eq!(events.len(), 6);
    assert!(matches!(events[0], Event::Warn(DriverError::UnknownDevice(7))));
    assert!(matches!(events[1], Event::Attached(7, _)));
    assert!(matches!(events[2], Event::StateDiff { id: 7, .. }));
    assert!(matches!(events[3], Event::Deattached(7)));
    assert!(matches!(events[4], Event::Warn(DriverError::UnknownDevice(7))));
    assert!(matches!(events[5], Event::Interruption(Ok(()))));
}

#[test]
fn lost_consumer_stops_the_producer() {
    let (tx, rx) = bounded(1);
    drop(rx);
    let mut pipeline: Pipeline<u32> = Pipeline::new(&Config::default());
    let step = pipeline.step(Ok(Notification::Removal(1)));
    let delivered = tx.send(step.event.unwrap()).is_ok();
    assert!(!delivered);
    pipeline.published(delivered);
    assert!(!pipeline.is_running());
    assert!(matches!(pipeline.finish(), Event::Interruption(Err(DriverError::ChannelBroken))));
}
