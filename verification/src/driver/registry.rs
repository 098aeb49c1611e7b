//! The registry of attached devices and what happens to it when a device
//! arrives, leaves, or sends a report.

use crate::driver::bits::Bits;
use crate::driver::caps::{
    button_fields, lemma_resolved_button_count, resolve, resolved, Capability, DataIndexMapping,
    DeviceObjectIndex, DeviceSpecs, Diagnostic, Resolution, SpecsView, USAGE_GAMEPAD,
    USAGE_JOYSTICK, USAGE_PAGE_GENERIC,
};
use crate::driver::diff::{pressed, pressed_bits, state_diff, DiffView, StateDiff};
use crate::driver::report::{
    decode, decoded, lemma_take_fields_untouched, DeviceObjectStates, ReportField, StatesView,
};
use crate::driver::{axis_range, slider_range, DeviceInfo};
use crate::AXIS_LIMIT;
use std::collections::HashMap;
use vstd::prelude::*;

verus! {

broadcast use vstd::std_specs::hash::group_hash_axioms;

/// The device type of a human interface device.
pub const DEVICE_TYPE_HID: u32 = 2;

/// What a device says it is.
#[derive(Debug, Clone, Copy, PartialEq, Eq)]
pub struct DeviceKind {
    pub device_type: u32,
    pub usage_page: u16,
    pub usage: u16,
}

/// Which devices the driver serves.
#[derive(Debug, Clone, Copy, PartialEq, Eq)]
pub enum DeviceFilter {
    Joystick,
    Gamepad,
    Both,
}

impl DeviceFilter {
    pub open spec fn spec_admits(self, kind: DeviceKind) -> bool {
        &&& kind.device_type == DEVICE_TYPE_HID
        &&& kind.usage_page == USAGE_PAGE_GENERIC
        &&& match self {
            DeviceFilter::Joystick => kind.usage == USAGE_JOYSTICK,
            DeviceFilter::Gamepad => kind.usage == USAGE_GAMEPAD,
            DeviceFilter::Both => kind.usage == USAGE_JOYSTICK || kind.usage == USAGE_GAMEPAD,
        }
    }

    /// Whether a device of this kind is one the filter lets through: a
    /// human interface device of the generic desktop page whose usage is
    /// among those the filter names.
    #[verifier::when_used_as_spec(spec_admits)]
    pub fn admits(self, kind: DeviceKind) -> (r: bool)
        ensures
            r == self.spec_admits(kind),
    {
        kind.device_type == DEVICE_TYPE_HID && kind.usage_page == USAGE_PAGE_GENERIC && match self {
            DeviceFilter::Joystick => kind.usage == USAGE_JOYSTICK,
            DeviceFilter::Gamepad => kind.usage == USAGE_GAMEPAD,
            DeviceFilter::Both => kind.usage == USAGE_JOYSTICK || kind.usage == USAGE_GAMEPAD,
        }
    }

    pub open spec fn spec_usages(self) -> Seq<u16> {
        match self {
            DeviceFilter::Joystick => seq![USAGE_JOYSTICK],
            DeviceFilter::Gamepad => seq![USAGE_GAMEPAD],
            DeviceFilter::Both => seq![USAGE_JOYSTICK, USAGE_GAMEPAD],
        }
    }

    /// The usages of the generic desktop page to ask notifications for.
    pub fn usages(self) -> (r: Vec<u16>)
        ensures
            r@ == self.spec_usages(),
    {
        let mut r: Vec<u16> = Vec::new();
        match self {
            DeviceFilter::Joystick => {
                r.push(USAGE_JOYSTICK);
            },
            DeviceFilter::Gamepad => {
                r.push(USAGE_GAMEPAD);
            },
            DeviceFilter::Both => {
                r.push(USAGE_JOYSTICK);
                r.push(USAGE_GAMEPAD);
            },
        }
        assert(r@ =~= self.spec_usages());
        r
    }
}

/// Whether a device of this kind is a joystick or a gamepad.
pub fn is_hid_joystick(kind: DeviceKind) -> (r: bool)
    ensures
        r == DeviceFilter::Both.spec_admits(kind),
{
    DeviceFilter::Both.admits(kind)
}

/// What the capability source read of one device.
#[derive(Debug, Clone, PartialEq, Eq)]
pub struct DeviceDescriptor {
    pub name: String,
    pub kind: DeviceKind,
    /// The most fields one report of the device can hold.
    pub max_data_count: u32,
    /// The capability blob, as the report source wants it back.
    pub pre_parsed_data: Vec<u8>,
    pub button_caps: Vec<Capability>,
    pub value_caps: Vec<Capability>,
}

/// What the registry keeps of one attached device.
pub struct DeviceStatus<B: Bits> {
    max_data_count: u32,
    pre_parsed_data: Vec<u8>,
    mapping: DataIndexMapping,
    specs: DeviceSpecs,
    obj_states: DeviceObjectStates,
    buttons: B,
}

/// A `DeviceStatus` as mathematical values.
pub struct StatusView {
    pub max_data_count: u32,
    pub pre_parsed_data: Seq<u8>,
    pub mapping: Map<u16, DeviceObjectIndex>,
    pub specs: SpecsView,
    /// The last snapshot.
    pub states: StatesView,
    /// The buttons that were pressed in the last snapshot.
    pub buttons: Seq<bool>,
}

impl StatusView {
    /// There is one state for each object, no more buttons than the bit
    /// vector has positions, and the bit vector says what the snapshot says.
    pub open spec fn wf(self) -> bool {
        &&& self.states.sized_for(self.specs)
        &&& self.specs.button_count <= self.buttons.len()
        &&& self.buttons == pressed_bits(self.states.buttons, self.buttons.len())
    }

    /// A device that was just attached: every button released, every hat
    /// centered, no axis or slider value.
    pub open spec fn attached(
        max_data_count: u32,
        pre_parsed_data: Seq<u8>,
        mapping: Map<u16, DeviceObjectIndex>,
        specs: SpecsView,
        cap: nat,
    ) -> StatusView {
        StatusView {
            max_data_count,
            pre_parsed_data,
            mapping,
            specs,
            states: StatesView::initial(specs),
            buttons: Seq::new(cap, |i: int| false),
        }
    }

    /// The device after a report with these fields.
    pub open spec fn after(self, fields: Seq<ReportField>) -> StatusView {
        let states = decoded(self.mapping, self.specs, fields);
        StatusView { states, buttons: pressed_bits(states.buttons, self.buttons.len()), ..self }
    }

    /// What a report with these fields changes on the device.
    pub open spec fn diff(self, fields: Seq<ReportField>) -> DiffView {
        state_diff(
            self.buttons,
            self.states.hats,
            decoded(self.mapping, self.specs, fields),
            self.specs,
        )
    }
}

/// What a report changes on a well-formed device is what sets the
/// snapshot decoded from it apart from the last snapshot; and the device is
/// well formed afterwards.
pub proof fn lemma_diff_between_snapshots(status: StatusView, fields: Seq<ReportField>)
    requires
        status.wf(),
    ensures
        status.diff(fields) == state_diff(
            pressed_bits(status.states.buttons, status.buttons.len()),
            status.states.hats,
            status.after(fields).states,
            status.specs,
        ),
        status.after(fields).wf(),
        status.after(fields).buttons.len() == status.buttons.len(),
{
    lemma_take_fields_untouched(
        StatesView::initial(status.specs),
        status.mapping,
        fields,
    );
}

impl<B: Bits> View for DeviceStatus<B> {
    type V = StatusView;

    closed spec fn view(&self) -> StatusView {
        StatusView {
            max_data_count: self.max_data_count,
            pre_parsed_data: self.pre_parsed_data@,
            mapping: self.mapping@,
            specs: self.specs@,
            states: self.obj_states@,
            buttons: self.buttons.bits(),
        }
    }
}

impl<B: Bits> DeviceStatus<B> {
    #[verifier::type_invariant]
    closed spec fn well_formed(self) -> bool {
        self@.wf() && self@.buttons.len() == B::CAP
    }

    /// The status of a device that was just attached; none for a device
    /// with more buttons than the bit vector has positions.
    pub fn new(
        max_data_count: u32,
        pre_parsed_data: Vec<u8>,
        mapping: DataIndexMapping,
        specs: DeviceSpecs,
    ) -> (r: Option<Self>)
        ensures
            match r {
                Some(st) => specs.button_count <= B::CAP && st@ == StatusView::attached(
                    max_data_count,
                    pre_parsed_data@,
                    mapping@,
                    specs@,
                    B::CAP as nat,
                ) && st@.wf(),
                None => specs.button_count > B::CAP,
            },
    {
        if specs.button_count > B::CAP {
            return None;
        }
        let obj_states = DeviceObjectStates::new(&specs);
        let buttons = B::empty();
        proof {
            assert(buttons.bits() =~= pressed_bits(obj_states@.buttons, B::CAP as nat));
        }
        Some(DeviceStatus { max_data_count, pre_parsed_data, mapping, specs, obj_states, buttons })
    }

    /// Takes one report: decodes its fields, says what changed since the
    /// last snapshot, and keeps the new snapshot in place of the last.
    /// A status is well formed before and after.
    pub fn advance(self, fields: &Vec<ReportField>) -> (r: (Self, StateDiff<B>))
        ensures
            self@.wf(),
            r.0@ == self@.after(fields@),
            r.0@.wf(),
            r.1@ == self@.diff(fields@),
    {
        proof {
            use_type_invariant(&self);
            self.buttons.lemma_capacity();
        }
        let obj_states = decode(&self.mapping, &self.specs, fields);
        let diff = StateDiff::between(
            self.buttons,
            &self.obj_states.hats,
            &obj_states,
            &self.specs,
        );
        let buttons: B = pressed(&obj_states.buttons);
        proof {
            buttons.lemma_capacity();
        }
        let next = DeviceStatus {
            max_data_count: self.max_data_count,
            pre_parsed_data: self.pre_parsed_data,
            mapping: self.mapping,
            specs: self.specs,
            obj_states,
            buttons,
        };
        (next, diff)
    }

    /// The capability blob of the device.
    pub fn pre_parsed_data(&self) -> (r: &Vec<u8>)
        ensures
            r@ == self@.pre_parsed_data,
    {
        &self.pre_parsed_data
    }

    pub fn max_data_count(&self) -> (r: u32)
        ensures
            r == self@.max_data_count,
    {
        self.max_data_count
    }

    pub fn specs(&self) -> (r: &DeviceSpecs)
        ensures
            r@ == self@.specs,
    {
        &self.specs
    }

    /// The last snapshot.
    pub fn states(&self) -> (r: &DeviceObjectStates)
        ensures
            r@ == self@.states,
    {
        &self.obj_states
    }
}

/// How an arrival ended.
pub enum Attach {
    /// The device is in the registry now.
    Attached { info: DeviceInfo, diagnostics: Vec<Diagnostic> },
    /// The device has more buttons than the bit vector has positions.
    TooManyButtons,
    /// The descriptor says that a report of the device holds no field.
    NoData,
}

/// The attached devices, by identity.
pub struct Registry<B: Bits> {
    devices: HashMap<isize, DeviceStatus<B>>,
}

impl<B: Bits> View for Registry<B> {
    type V = Map<isize, StatusView>;

    closed spec fn view(&self) -> Map<isize, StatusView> {
        self.devices@.map_values(|status: DeviceStatus<B>| status@)
    }
}

/// The status of a device that was just attached with this descriptor.
pub open spec fn attached_status(
    max_data_count: u32,
    pre_parsed_data: Seq<u8>,
    button_caps: Seq<Capability>,
    value_caps: Seq<Capability>,
    cap: nat,
) -> StatusView {
    let r = resolved(button_caps, value_caps);
    StatusView::attached(max_data_count, pre_parsed_data, r.mapping, r.specs, cap)
}

impl<B: Bits> Registry<B> {
    pub fn new() -> (r: Self)
        ensures
            r@ == Map::<isize, StatusView>::empty(),
    {
        let r = Registry { devices: HashMap::new() };
        assert(r@ =~= Map::<isize, StatusView>::empty());
        r
    }

    /// Whether device `id` is attached.
    pub fn contains(&self, id: isize) -> (r: bool)
        ensures
            r == self@.contains_key(id),
    {
        self.devices.contains_key(&id)
    }

    /// The status of device `id`, if it is attached.
    pub fn get(&self, id: isize) -> (r: Option<&DeviceStatus<B>>)
        ensures
            match r {
                Some(status) => self@.contains_key(id) && status@ == self@[id],
                None => !self@.contains_key(id),
            },
    {
        self.devices.get(&id)
    }

    /// A device arrives. It is resolved and put in the registry, in place
    /// of what the registry held under `id`, unless its descriptor allows
    /// no field in a report or declares more buttons than `CAP`: then the
    /// registry stays as it is.
    pub fn attach(&mut self, id: isize, descriptor: DeviceDescriptor) -> (r: Attach)
        ensures
            match r {
                Attach::NoData => descriptor.max_data_count == 0 && final(self)@ == old(self)@,
                Attach::TooManyButtons => descriptor.max_data_count != 0 && button_fields(
                    descriptor.button_caps@,
                ).len() > B::CAP && final(self)@ == old(self)@,
                Attach::Attached { info, diagnostics } => {
                    let r = resolved(descriptor.button_caps@, descriptor.value_caps@);
                    &&& descriptor.max_data_count != 0
                    &&& button_fields(descriptor.button_caps@).len() <= B::CAP
                    &&& final(self)@ == old(self)@.insert(
                        id,
                        attached_status(
                            descriptor.max_data_count,
                            descriptor.pre_parsed_data@,
                            descriptor.button_caps@,
                            descriptor.value_caps@,
                            B::CAP as nat,
                        ),
                    )
                    &&& diagnostics@ == r.diagnostics
                    &&& info.name == descriptor.name
                    &&& info.buttons_num == r.specs.button_count
                    &&& info.dpad == (r.specs.hats_count > 0)
                    &&& forall|slot: int|
                        0 <= slot < AXIS_LIMIT ==> #[trigger] info.axis[slot]
                            == axis_range(r.specs.axis, slot)
                    &&& info.slider == slider_range(r.specs.sliders)
                },
            },
    {
        if descriptor.max_data_count == 0 {
            return Attach::NoData;
        }
        match resolve(&descriptor.button_caps, &descriptor.value_caps, B::CAP) {
            Err(_) => Attach::TooManyButtons,
            Ok(resolution) => {
                let Resolution { specs, mapping, diagnostics } = resolution;
                proof {
                    lemma_resolved_button_count(
                        descriptor.button_caps@,
                        descriptor.value_caps@,
                    );
                }
                let info = DeviceInfo::summarize(descriptor.name, &specs);
                match DeviceStatus::new(
                    descriptor.max_data_count,
                    descriptor.pre_parsed_data,
                    mapping,
                    specs,
                ) {
                    Some(status) => {
                        self.devices.insert(id, status);
                        proof {
                            assert(self@ =~= old(self)@.insert(id, status@));
                        }
                        Attach::Attached { info, diagnostics }
                    },
                    None => Attach::TooManyButtons,
                }
            },
        }
    }

    /// A device leaves. It is taken out of the registry; the result says
    /// whether it was there.
    pub fn detach(&mut self, id: isize) -> (was_attached: bool)
        ensures
            was_attached == old(self)@.contains_key(id),
            final(self)@ == old(self)@.remove(id),
            !was_attached ==> final(self)@ == old(self)@,
    {
        let removed = self.devices.remove(&id);
        proof {
            assert(self@ =~= old(self)@.remove(id));
            if !old(self)@.contains_key(id) {
                assert(old(self)@.remove(id) =~= old(self)@);
            }
        }
        removed.is_some()
    }

    /// A report of device `id`. If the device is attached, the report is
    /// decoded against it, the device keeps the new snapshot, and the
    /// result says what changed; the device was well formed and is so
    /// afterwards. If it is not attached, the registry stays as it is and
    /// there is no result.
    pub fn report(&mut self, id: isize, fields: &Vec<ReportField>) -> (r: Option<StateDiff<B>>)
        ensures
            match r {
                Some(diff) => {
                    &&& old(self)@.contains_key(id)
                    &&& old(self)@[id].wf()
                    &&& diff@ == old(self)@[id].diff(fields@)
                    &&& final(self)@ == old(self)@.insert(id, old(self)@[id].after(fields@))
                },
                None => !old(self)@.contains_key(id) && final(self)@ == old(self)@,
            },
    {
        match self.devices.remove(&id) {
            None => {
                proof {
                    assert(self@ =~= old(self)@);
                }
                None
            },
            Some(status) => {
                assert(old(self)@.contains_key(id) && old(self)@[id] == status@);
                let (next, diff) = status.advance(fields);
                self.devices.insert(id, next);
                proof {
                    assert(self@ =~= old(self)@.insert(id, old(self)@[id].after(fields@)));
                }
                Some(diff)
            },
        }
    }
}

} // verus!
