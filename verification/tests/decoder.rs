use joystick_rs::driver::caps::{resolve, Capability, DeviceSpecs, FieldSpan};
use joystick_rs::driver::report::{
    allocate_buffer, decode, decode_hat, to_signed, DeviceObjectStates, ReportField,
};
use joystick_rs::{AxisIdent, ButtonState, DPadState};

fn field(index: u16, raw_value: u32, on: bool) -> ReportField {
    ReportField { index, raw_value, on }
}

fn value(usage: u16, index: u16) -> Capability {
    Capability { usage_page: 1, span: FieldSpan::Single { index, usage }, logical_min: 0, logical_max: 255 }
}

fn gamepad() -> (Vec<Capability>, Vec<Capability>) {
    let buttons = vec![Capability {
        usage_page: 9,
        span: FieldSpan::Range { index_min: 0, index_max: 3, usage_min: 1, usage_max: 4 },
        logical_min: 0,
        logical_max: 1,
    }];
    let values = vec![value(0x30, 4), value(0x31, 5), value(0x36, 6), value(0x39, 7), value(0x40, 8)];
    (buttons, values)
}

#[test]
fn hat_codes_go_clockwise_from_up() {
    assert_eq!(decode_hat(0), DPadState::Up);
    assert_eq!(decode_hat(1), DPadState::UpRight);
    assert_eq!(decode_hat(2), DPadState::Right);
    assert_eq!(decode_hat(3), DPadState::DownRight);
    assert_eq!(decode_hat(4), DPadState::Down);
    assert_eq!(decode_hat(5), DPadState::DownLeft);
    assert_eq!(decode_hat(6), DPadState::Left);
    assert_eq!(decode_hat(7), DPadState::UpLeft);
}

#[test]
fn hat_code_out_of_range_is_centered() {
    assert_eq!(decode_hat(8), DPadState::Null);
    assert_eq!(decode_hat(9), DPadState::Null);
    assert_eq!(decode_hat(15), DPadState::Null);
    assert_eq!(decode_hat(u32::MAX), DPadState::Null);
}

#[test]
fn raw_values_are_read_as_two_s_complement() {
    assert_eq!(to_signed(0), 0);
    assert_eq!(to_signed(255), 255);
    assert_eq!(to_signed(0x7fff_ffff), i32::MAX);
    assert_eq!(to_signed(0x8000_0000), i32::MIN);
    assert_eq!(to_signed(0xffff_ffff), -1);
    assert_eq!(to_signed(0xffff_ff00), -256);
}

#[test]
fn allocate_buffer_fills_with_defaults() {
    let numbers: Vec<u8> = allocate_buffer(4);
    assert_eq!(numbers, vec![0u8; 4]);
    let buttons: Vec<ButtonState> = allocate_buffer(3);
    assert_eq!(buttons, vec![ButtonState::Released; 3]);
    let hats: Vec<DPadState> = allocate_buffer(2);
    assert_eq!(hats, vec![DPadState::Null; 2]);
    let none: Vec<Option<i32>> = allocate_buffer(0);
    assert!(none.is_empty());
}

#[test]
fn initial_states_are_all_default() {
    let specs = DeviceSpecs {
        button_count: 2,
        axis: vec![(AxisIdent::X, (0, 255))],
        sliders: vec![(0, 1), (0, 2)],
        hats_count: 1,
    };
    let st = DeviceObjectStates::new(&specs);
    assert_eq!(
        st,
        DeviceObjectStates {
            buttons: vec![ButtonState::Released, ButtonState::Released],
            axis: vec![None],
            sliders: vec![None, None],
            hats: vec![DPadState::Null],
        }
    );
}

#[test]
fn decode_sets_every_kind_of_object() {
    let (buttons, values) = gamepad();
    let r = resolve(&buttons, &values, 32).unwrap();
    let fields = vec![
        field(1, 1, true),
        field(3, 1, true),
        field(4, 200, false),
        field(6, 0xffff_fffe, false),
        field(7, 2, false),
        field(8, 77, true),
    ];
    let st = decode(&r.mapping, &r.specs, &fields);
    assert_eq!(
        st,
        DeviceObjectStates {
            buttons: vec![
                ButtonState::Released,
                ButtonState::Pressed,
                ButtonState::Released,
                ButtonState::Pressed
            ],
            axis: vec![Some(200), None],
            sliders: vec![Some(-2)],
            hats: vec![DPadState::Right],
        }
    );
}

#[test]
fn decode_of_no_fields_is_the_initial_state() {
    let (buttons, values) = gamepad();
    let r = resolve(&buttons, &values, 32).unwrap();
    let st = decode(&r.mapping, &r.specs, &Vec::new());
    assert_eq!(st, DeviceObjectStates::new(&r.specs));
    assert_eq!(st.buttons.len(), 4);
    assert_eq!(st.axis.len(), 2);
    assert_eq!(st.sliders.len(), 1);
    assert_eq!(st.hats.len(), 1);
}

#[test]
fn decode_ignores_unmapped_fields() {
    let (buttons, values) = gamepad();
    let r = resolve(&buttons, &values, 32).unwrap();
    let st = decode(&r.mapping, &r.specs, &vec![field(100, 5, true), field(65535, 1, true)]);
    assert_eq!(st, DeviceObjectStates::new(&r.specs));
}

#[test]
fn later_fields_overwrite_earlier_ones() {
    let (buttons, values) = gamepad();
    let r = resolve(&buttons, &values, 32).unwrap();
    let fields = vec![field(0, 1, true), field(4, 10, false), field(0, 0, false), field(4, 20, false)];
    let st = decode(&r.mapping, &r.specs, &fields);
    assert_eq!(st.buttons[0], ButtonState::Released);
    assert_eq!(st.axis[0], Some(20));
}

#[test]
fn axis_value_zero_is_present() {
    let (buttons, values) = gamepad();
    let r = resolve(&buttons, &values, 32).unwrap();
    let st = decode(&r.mapping, &r.specs, &vec![field(5, 0, false)]);
    assert_eq!(st.axis, vec![None, Some(0)]);
}

#[test]
fn decode_passes_over_ordinals_the_device_lacks() {
    let (buttons, values) = gamepad();
    let r = resolve(&buttons, &values, 32).unwrap();
    let small = DeviceSpecs { button_count: 1, axis: vec![], sliders: vec![], hats_count: 0 };
    let fields = vec![field(0, 1, true), field(1, 1, true), field(4, 9, false), field(6, 9, false), field(7, 1, false)];
    let st = decode(&r.mapping, &small, &fields);
    assert_eq!(
        st,
        DeviceObjectStates { buttons: vec![ButtonState::Pressed], axis: vec![], sliders: vec![], hats: vec![] }
    );
}
