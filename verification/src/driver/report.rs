//! Report decoding: from the fields of one raw report to the state of every
//! object of the device.

use crate::driver::caps::{DataIndexMapping, DeviceObjectIndex, DeviceSpecs, SpecsView};
use crate::{ButtonState, DPadState};
use vstd::prelude::*;

verus! {

/// A buffer of `cap` default values.
pub fn allocate_buffer<T: Default + Clone>(cap: usize) -> (buf: Vec<T>)
    ensures
        buf.len() == cap,
        exists|d: T|
            call_ensures(T::default, (), d) && forall|i: int|
                0 <= i < cap ==> cloned(d, #[trigger] buf[i]),
{
    let buf = vec![T::default(); cap];
    buf
}

/// One field of a raw report, as the report source hands it out: the field
/// index, and the field's content read as a number and read as a flag.
#[derive(Debug, Clone, Copy, PartialEq, Eq)]
pub struct ReportField {
    pub index: u16,
    pub raw_value: u32,
    pub on: bool,
}

/// The direction a hat switch reports by `raw`: clockwise from `Up` at 0 to
/// `UpLeft` at 7, and centered for every other code.
pub open spec fn hat_direction(raw: u32) -> DPadState {
    if raw == 0 {
        DPadState::Up
    } else if raw == 1 {
        DPadState::UpRight
    } else if raw == 2 {
        DPadState::Right
    } else if raw == 3 {
        DPadState::DownRight
    } else if raw == 4 {
        DPadState::Down
    } else if raw == 5 {
        DPadState::DownLeft
    } else if raw == 6 {
        DPadState::Left
    } else if raw == 7 {
        DPadState::UpLeft
    } else {
        DPadState::Null
    }
}

pub fn decode_hat(raw: u32) -> (st: DPadState)
    ensures
        st == hat_direction(raw),
{
    match raw {
        0 => DPadState::Up,
        1 => DPadState::UpRight,
        2 => DPadState::Right,
        3 => DPadState::DownRight,
        4 => DPadState::Down,
        5 => DPadState::DownLeft,
        6 => DPadState::Left,
        7 => DPadState::UpLeft,
        _ => DPadState::Null,
    }
}

/// The 32 bits of `raw` read as a signed number in two's complement.
pub open spec fn signed(raw: u32) -> i32 {
    if raw <= 0x7fff_ffff {
        raw as i32
    } else {
        (raw - 0x1_0000_0000) as i32
    }
}

pub fn to_signed(raw: u32) -> (v: i32)
    ensures
        v == signed(raw),
{
    if raw <= 0x7fff_ffff {
        raw as i32
    } else {
        ((raw - 0x8000_0000) as i32) + i32::MIN
    }
}

/// The state of every object of one device, by ordinal. An axis or slider
/// that the report did not mention has no value.
#[derive(Debug, Clone, PartialEq, Eq)]
pub struct DeviceObjectStates {
    pub buttons: Vec<ButtonState>,
    pub axis: Vec<Option<i32>>,
    pub sliders: Vec<Option<i32>>,
    pub hats: Vec<DPadState>,
}

/// The states of a `DeviceObjectStates`, as sequences.
pub struct StatesView {
    pub buttons: Seq<ButtonState>,
    pub axis: Seq<Option<i32>>,
    pub sliders: Seq<Option<i32>>,
    pub hats: Seq<DPadState>,
}

impl View for DeviceObjectStates {
    type V = StatesView;

    open spec fn view(&self) -> StatesView {
        StatesView {
            buttons: self.buttons@,
            axis: self.axis@,
            sliders: self.sliders@,
            hats: self.hats@,
        }
    }
}

impl StatesView {
    /// Every button released, every hat centered, no axis or slider value.
    pub open spec fn initial(specs: SpecsView) -> StatesView {
        StatesView {
            buttons: Seq::new(specs.button_count, |i: int| ButtonState::Released),
            axis: Seq::new(specs.axis.len(), |i: int| None::<i32>),
            sliders: Seq::new(specs.sliders.len(), |i: int| None::<i32>),
            hats: Seq::new(specs.hats_count, |i: int| DPadState::Null),
        }
    }

    /// Whether there is one state for each object that `specs` counts.
    pub open spec fn sized_for(self, specs: SpecsView) -> bool {
        &&& self.buttons.len() == specs.button_count
        &&& self.axis.len() == specs.axis.len()
        &&& self.sliders.len() == specs.sliders.len()
        &&& self.hats.len() == specs.hats_count
    }

    /// The states after `field` was read as the content of `object`. An
    /// ordinal that the device does not have changes nothing.
    pub open spec fn apply(self, object: DeviceObjectIndex, field: ReportField) -> StatesView {
        match object {
            DeviceObjectIndex::Button(k) => if k < self.buttons.len() {
                StatesView {
                    buttons: self.buttons.update(k as int, ButtonState::of(field.on)),
                    ..self
                }
            } else {
                self
            },
            DeviceObjectIndex::Axis(k) => if k < self.axis.len() {
                StatesView {
                    axis: self.axis.update(k as int, Some(signed(field.raw_value))),
                    ..self
                }
            } else {
                self
            },
            DeviceObjectIndex::Slider(k) => if k < self.sliders.len() {
                StatesView {
                    sliders: self.sliders.update(k as int, Some(signed(field.raw_value))),
                    ..self
                }
            } else {
                self
            },
            DeviceObjectIndex::Hat(k) => if k < self.hats.len() {
                StatesView {
                    hats: self.hats.update(k as int, hat_direction(field.raw_value)),
                    ..self
                }
            } else {
                self
            },
            DeviceObjectIndex::Unknown(_, _) => self,
        }
    }

    /// The states after `field`; a field without an object changes nothing.
    pub open spec fn take_field(
        self,
        mapping: Map<u16, DeviceObjectIndex>,
        field: ReportField,
    ) -> StatesView {
        if mapping.contains_key(field.index) {
            self.apply(mapping[field.index], field)
        } else {
            self
        }
    }

    /// The states after the fields, taken in their order.
    pub open spec fn take_fields(
        self,
        mapping: Map<u16, DeviceObjectIndex>,
        fields: Seq<ReportField>,
    ) -> StatesView
        decreases fields.len(),
    {
        if fields.len() == 0 {
            self
        } else {
            self.take_fields(mapping, fields.drop_last()).take_field(mapping, fields.last())
        }
    }
}

/// What a report with these fields says of a device with this mapping and
/// these counts.
pub open spec fn decoded(
    mapping: Map<u16, DeviceObjectIndex>,
    specs: SpecsView,
    fields: Seq<ReportField>,
) -> StatesView {
    StatesView::initial(specs).take_fields(mapping, fields)
}

/// Whether one of the fields belongs to `object`.
pub open spec fn mentions(
    mapping: Map<u16, DeviceObjectIndex>,
    fields: Seq<ReportField>,
    object: DeviceObjectIndex,
) -> bool {
    exists|i: int|
        0 <= i < fields.len() && mapping.contains_key((#[trigger] fields[i]).index)
            && mapping[fields[i].index] == object
}

/// Fields change only the objects they belong to.
pub proof fn lemma_take_fields_untouched(
    st: StatesView,
    mapping: Map<u16, DeviceObjectIndex>,
    fields: Seq<ReportField>,
)
    ensures
        ({
            let after = st.take_fields(mapping, fields);
            &&& after.buttons.len() == st.buttons.len()
            &&& after.axis.len() == st.axis.len()
            &&& after.sliders.len() == st.sliders.len()
            &&& after.hats.len() == st.hats.len()
            &&& forall|k: usize|
                k < st.buttons.len() && !mentions(mapping, fields, DeviceObjectIndex::Button(k))
                    ==> #[trigger] after.buttons[k as int] == st.buttons[k as int]
            &&& forall|k: usize|
                k < st.axis.len() && !mentions(mapping, fields, DeviceObjectIndex::Axis(k))
                    ==> #[trigger] after.axis[k as int] == st.axis[k as int]
            &&& forall|k: usize|
                k < st.sliders.len() && !mentions(mapping, fields, DeviceObjectIndex::Slider(k))
                    ==> #[trigger] after.sliders[k as int] == st.sliders[k as int]
            &&& forall|k: usize|
                k < st.hats.len() && !mentions(mapping, fields, DeviceObjectIndex::Hat(k))
                    ==> #[trigger] after.hats[k as int] == st.hats[k as int]
        }),
    decreases fields.len(),
{
    if fields.len() > 0 {
        let head = fields.drop_last();
        let last = fields.last();
        lemma_take_fields_untouched(st, mapping, head);
        let mid = st.take_fields(mapping, head);
        let after = st.take_fields(mapping, fields);
        assert(after == mid.take_field(mapping, last));
        assert forall|object: DeviceObjectIndex| !mentions(mapping, fields, object)
            implies !mentions(mapping, head, object) && !(mapping.contains_key(last.index)
            && mapping[last.index] == object) by {
            if mentions(mapping, head, object) {
                let i = choose|i: int|
                    0 <= i < head.len() && mapping.contains_key((#[trigger] head[i]).index)
                        && mapping[head[i].index] == object;
                assert(fields[i] == head[i]);
            }
            if mapping.contains_key(last.index) && mapping[last.index] == object {
                assert(fields[fields.len() - 1] == last);
            }
        }
    }
}

/// An object that no field of a report belongs to is, after decoding, what
/// it is initially: a button released, a hat centered, an axis or a slider
/// without value.
pub proof fn lemma_unmentioned_keep_initial(
    mapping: Map<u16, DeviceObjectIndex>,
    specs: SpecsView,
    fields: Seq<ReportField>,
)
    ensures
        ({
            let st = decoded(mapping, specs, fields);
            &&& st.sized_for(specs)
            &&& forall|k: usize|
                k < specs.button_count && !mentions(mapping, fields, DeviceObjectIndex::Button(k))
                    ==> #[trigger] st.buttons[k as int] == ButtonState::Released
            &&& forall|k: usize|
                k < specs.axis.len() && !mentions(mapping, fields, DeviceObjectIndex::Axis(k))
                    ==> #[trigger] st.axis[k as int] == None::<i32>
            &&& forall|k: usize|
                k < specs.sliders.len() && !mentions(mapping, fields, DeviceObjectIndex::Slider(k))
                    ==> #[trigger] st.sliders[k as int] == None::<i32>
            &&& forall|k: usize|
                k < specs.hats_count && !mentions(mapping, fields, DeviceObjectIndex::Hat(k))
                    ==> #[trigger] st.hats[k as int] == DPadState::Null
        }),
{
    lemma_take_fields_untouched(StatesView::initial(specs), mapping, fields);
}

impl DeviceObjectStates {
    /// The states of a device of which no report was seen yet.
    pub fn new(specs: &DeviceSpecs) -> (st: Self)
        ensures
            st@ == StatesView::initial(specs@),
    {
        let st = DeviceObjectStates {
            buttons: allocate_buffer(specs.button_count),
            axis: allocate_buffer(specs.axis.len()),
            sliders: allocate_buffer(specs.sliders.len()),
            hats: allocate_buffer(specs.hats_count),
        };
        assert(st.buttons@ =~= StatesView::initial(specs@).buttons);
        assert(st.axis@ =~= StatesView::initial(specs@).axis);
        assert(st.sliders@ =~= StatesView::initial(specs@).sliders);
        assert(st.hats@ =~= StatesView::initial(specs@).hats);
        st
    }

    fn apply(&mut self, object: DeviceObjectIndex, field: ReportField)
        ensures
            final(self)@ == old(self)@.apply(object, field),
    {
        match object {
            DeviceObjectIndex::Button(k) => {
                if k < self.buttons.len() {
                    self.buttons.set(k, ButtonState::from(field.on));
                }
            },
            DeviceObjectIndex::Axis(k) => {
                if k < self.axis.len() {
                    self.axis.set(k, Some(to_signed(field.raw_value)));
                }
            },
            DeviceObjectIndex::Slider(k) => {
                if k < self.sliders.len() {
                    self.sliders.set(k, Some(to_signed(field.raw_value)));
                }
            },
            DeviceObjectIndex::Hat(k) => {
                if k < self.hats.len() {
                    self.hats.set(k, decode_hat(field.raw_value));
                }
            },
            DeviceObjectIndex::Unknown(_, _) => {},
        }
    }
}

/// Decodes the fields of one report.
///
/// Decoding starts from the initial states and takes the fields in their
/// order: a button field presses or releases its button, an axis or slider
/// field gives its object a value, a hat field gives its hat a direction.
/// Fields without an object, and fields of no known kind, are passed over.
pub fn decode(mapping: &DataIndexMapping, specs: &DeviceSpecs, fields: &Vec<ReportField>) -> (st:
    DeviceObjectStates)
    ensures
        st@ == decoded(mapping@, specs@, fields@),
        st@.sized_for(specs@),
{
    let mut st = DeviceObjectStates::new(specs);
    let mut i: usize = 0;
    while i < fields.len()
        invariant
            i <= fields.len(),
            st@ == StatesView::initial(specs@).take_fields(mapping@, fields@.take(i as int)),
        decreases fields.len() - i,
    {
        proof {
            assert(fields@.take(i + 1).drop_last() =~= fields@.take(i as int));
        }
        let field = fields[i];
        match mapping.get(field.index) {
            Some(object) => {
                st.apply(object, field);
            },
            None => {},
        }
        i = i + 1;
    }
    proof {
        assert(fields@.take(i as int) =~= fields@);
        lemma_take_fields_untouched(StatesView::initial(specs@), mapping@, fields@);
    }
    st
}

} // verus!
