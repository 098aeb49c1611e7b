//! The diff engine: what changed between two consecutive snapshots of a
//! device, and the ordered list of object diffs that says so.

use crate::driver::bits::{count_true, difference, Bits};
use crate::driver::caps::{DeviceSpecs, SpecsView};
use crate::driver::report::{DeviceObjectStates, StatesView};
use crate::{
    Axis, AxisDef, AxisIdent, AxisState, Button, ButtonIdent, ButtonState, DPadState, Joystick,
    ObjectDiff, SliderState, AXIS_LIMIT,
};
use vstd::prelude::*;

verus! {

/// One change of one object of a device, named without a profile: a button
/// by its ordinal, an axis by its kind.
#[derive(Debug, Clone, Copy, PartialEq, Eq)]
pub enum OrdinalDiff {
    DPad(DPadState),
    Button(ButtonIdent, ButtonState),
    Axis(AxisIdent, AxisState),
    Slider(SliderState),
}

/// What one report changed on one device.
pub struct StateDiff<B: Bits> {
    /// The new direction of every hat that changed direction, by ordinal.
    dpad: Vec<DPadState>,
    /// The buttons that changed, and the buttons that are now pressed.
    buttons: (B, B),
    /// Kind and value of every axis that the report gave a value, by ordinal.
    axis: Vec<(AxisIdent, AxisState)>,
    /// The value of every slider that the report gave a value, by ordinal.
    slider: Vec<SliderState>,
}

/// A `StateDiff` as mathematical values: the bit vectors as sequences of
/// positions, position 0 first.
pub struct DiffView {
    pub dpad: Seq<DPadState>,
    pub changed: Seq<bool>,
    pub current: Seq<bool>,
    pub axis: Seq<(AxisIdent, AxisState)>,
    pub slider: Seq<SliderState>,
}

impl<B: Bits> View for StateDiff<B> {
    type V = DiffView;

    closed spec fn view(&self) -> DiffView {
        DiffView {
            dpad: self.dpad@,
            changed: self.buttons.0.bits(),
            current: self.buttons.1.bits(),
            axis: self.axis@,
            slider: self.slider@,
        }
    }
}

/// The positions below `n` at which `s` holds `true`, in ascending order.
pub open spec fn true_positions(s: Seq<bool>, n: nat) -> Seq<int>
    decreases n,
{
    if n == 0 {
        Seq::empty()
    } else {
        let head = true_positions(s, (n - 1) as nat);
        if n - 1 < s.len() && s[n - 1] {
            head.push(n - 1)
        } else {
            head
        }
    }
}

/// Whether the button at `position` is pressed according to `current`.
pub open spec fn state_at(current: Seq<bool>, position: int) -> ButtonState {
    ButtonState::of(0 <= position < current.len() && current[position])
}

pub open spec fn dpad_diffs(dpad: Seq<DPadState>) -> Seq<ObjectDiff> {
    dpad.map_values(|direction: DPadState| ObjectDiff::DPad(direction))
}

/// One diff for each of the first `n` buttons of the profile that changed,
/// in the order of the profile.
pub open spec fn button_diffs(
    changed: Seq<bool>,
    current: Seq<bool>,
    names: Seq<Button>,
    n: nat,
) -> Seq<ObjectDiff> {
    true_positions(changed, n).map_values(
        |position: int| ObjectDiff::Button(names[position], state_at(current, position)),
    )
}

/// One diff for each value of an axis of the kind at table position `slot`.
pub open spec fn slot_diffs(axis: Seq<(AxisIdent, AxisState)>, slot: int, typ: Axis) -> Seq<
    ObjectDiff,
> {
    axis.filter(|entry: (AxisIdent, AxisState)| entry.0.spec_index() == slot).map_values(
        |entry: (AxisIdent, AxisState)| ObjectDiff::Axis(typ, entry.1),
    )
}

/// The axis diffs of the first `n` positions of the profile's axis table,
/// in the order of the table. A kind that the profile does not define
/// yields none.
pub open spec fn axis_diffs(
    axis: Seq<(AxisIdent, AxisState)>,
    defs: Seq<Option<AxisDef>>,
    n: nat,
) -> Seq<ObjectDiff>
    decreases n,
{
    if n == 0 {
        Seq::empty()
    } else {
        axis_diffs(axis, defs, (n - 1) as nat) + match defs[n - 1] {
            Some(def) => slot_diffs(axis, n - 1, def.typ),
            None => Seq::empty(),
        }
    }
}

pub open spec fn slider_diffs(slider: Seq<SliderState>) -> Seq<ObjectDiff> {
    slider.map_values(|value: SliderState| ObjectDiff::Slider(value))
}

/// The diffs of `d` under a profile with these button names and axis
/// definitions: D-pad first, then buttons, then axes, then sliders.
pub open spec fn object_diffs(d: DiffView, names: Seq<Button>, defs: Seq<Option<AxisDef>>) -> Seq<
    ObjectDiff,
> {
    dpad_diffs(d.dpad) + button_diffs(d.changed, d.current, names, names.len()) + axis_diffs(
        d.axis,
        defs,
        defs.len(),
    ) + slider_diffs(d.slider)
}

/// One diff for each of the first `n` buttons that changed, by ordinal.
pub open spec fn ordinal_button_diffs(changed: Seq<bool>, current: Seq<bool>, n: nat) -> Seq<
    OrdinalDiff,
> {
    true_positions(changed, n).map_values(
        |position: int| OrdinalDiff::Button(position as usize, state_at(current, position)),
    )
}

pub open spec fn ordinal_dpad_diffs(dpad: Seq<DPadState>) -> Seq<OrdinalDiff> {
    dpad.map_values(|direction: DPadState| OrdinalDiff::DPad(direction))
}

pub open spec fn ordinal_axis_diffs(axis: Seq<(AxisIdent, AxisState)>) -> Seq<OrdinalDiff> {
    axis.map_values(|entry: (AxisIdent, AxisState)| OrdinalDiff::Axis(entry.0, entry.1))
}

pub open spec fn ordinal_slider_diffs(slider: Seq<SliderState>) -> Seq<OrdinalDiff> {
    slider.map_values(|value: SliderState| OrdinalDiff::Slider(value))
}

/// The diffs of `d` without a profile, in the same order: every changed
/// button by its ordinal, every axis value by the kind of its axis, in the
/// order of the ordinals.
pub open spec fn ordinal_diffs(d: DiffView) -> Seq<OrdinalDiff> {
    ordinal_dpad_diffs(d.dpad) + ordinal_button_diffs(d.changed, d.current, d.changed.len())
        + ordinal_axis_diffs(d.axis) + ordinal_slider_diffs(d.slider)
}

/// The buttons that are pressed, as the positions of a bit vector of
/// capacity `cap`.
pub open spec fn pressed_bits(buttons: Seq<ButtonState>, cap: nat) -> Seq<bool> {
    Seq::new(cap, |i: int| i < buttons.len() && buttons[i] == ButtonState::Pressed)
}

/// The direction of hat `ordinal`; a hat that was never seen is centered.
pub open spec fn hat_at(hats: Seq<DPadState>, ordinal: int) -> DPadState {
    if 0 <= ordinal < hats.len() {
        hats[ordinal]
    } else {
        DPadState::Null
    }
}

/// The new direction of each of the first `n` hats whose direction is not
/// what it was before, by ordinal.
pub open spec fn changed_hats(previous: Seq<DPadState>, current: Seq<DPadState>, n: nat) -> Seq<
    DPadState,
>
    decreases n,
{
    if n == 0 {
        Seq::empty()
    } else {
        let head = changed_hats(previous, current, (n - 1) as nat);
        if n - 1 < current.len() && current[n - 1] != hat_at(previous, n - 1) {
            head.push(current[n - 1])
        } else {
            head
        }
    }
}

/// Kind and value of each of the first `n` axes that has a value, by
/// ordinal.
pub open spec fn present_axes(
    kinds: Seq<(AxisIdent, (i32, i32))>,
    values: Seq<Option<i32>>,
    n: nat,
) -> Seq<(AxisIdent, AxisState)>
    decreases n,
{
    if n == 0 {
        Seq::empty()
    } else {
        let head = present_axes(kinds, values, (n - 1) as nat);
        if n - 1 < kinds.len() && n - 1 < values.len() && values[n - 1] is Some {
            head.push((kinds[n - 1].0, values[n - 1]->Some_0))
        } else {
            head
        }
    }
}

/// The value of each of the first `n` sliders that has a value, by ordinal.
pub open spec fn present_sliders(values: Seq<Option<i32>>, n: nat) -> Seq<SliderState>
    decreases n,
{
    if n == 0 {
        Seq::empty()
    } else {
        let head = present_sliders(values, (n - 1) as nat);
        if n - 1 < values.len() && values[n - 1] is Some {
            head.push(values[n - 1]->Some_0)
        } else {
            head
        }
    }
}

/// What changed from a device whose pressed buttons were `previous_buttons`
/// and whose hats pointed as `previous_hats` to the snapshot `current`.
pub open spec fn state_diff(
    previous_buttons: Seq<bool>,
    previous_hats: Seq<DPadState>,
    current: StatesView,
    specs: SpecsView,
) -> DiffView {
    let pressed = pressed_bits(current.buttons, previous_buttons.len());
    DiffView {
        dpad: changed_hats(previous_hats, current.hats, current.hats.len()),
        changed: difference(previous_buttons, pressed),
        current: pressed,
        axis: present_axes(specs.axis, current.axis, current.axis.len()),
        slider: present_sliders(current.sliders, current.sliders.len()),
    }
}

proof fn lemma_button_diffs_step(
    changed: Seq<bool>,
    current: Seq<bool>,
    names: Seq<Button>,
    n: nat,
)
    ensures
        button_diffs(changed, current, names, n + 1) == if n < changed.len() && changed[n as int] {
            button_diffs(changed, current, names, n).push(
                ObjectDiff::Button(names[n as int], state_at(current, n as int)),
            )
        } else {
            button_diffs(changed, current, names, n)
        },
{
    if n < changed.len() && changed[n as int] {
        assert(button_diffs(changed, current, names, n + 1) =~= button_diffs(
            changed,
            current,
            names,
            n,
        ).push(ObjectDiff::Button(names[n as int], state_at(current, n as int))));
    }
}

proof fn lemma_slot_diffs_step(axis: Seq<(AxisIdent, AxisState)>, slot: int, typ: Axis, k: int)
    requires
        0 <= k < axis.len(),
    ensures
        slot_diffs(axis.take(k + 1), slot, typ) == if axis[k].0.spec_index() == slot {
            slot_diffs(axis.take(k), slot, typ).push(ObjectDiff::Axis(typ, axis[k].1))
        } else {
            slot_diffs(axis.take(k), slot, typ)
        },
{
    let keep = |entry: (AxisIdent, AxisState)| entry.0.spec_index() == slot;
    assert(axis.take(k + 1) =~= axis.take(k).push(axis[k]));
    axis.take(k).lemma_filter_push(axis[k], keep);
    if axis[k].0.spec_index() == slot {
        assert(slot_diffs(axis.take(k + 1), slot, typ) =~= slot_diffs(axis.take(k), slot, typ).push(
            ObjectDiff::Axis(typ, axis[k].1),
        ));
    }
}

proof fn lemma_ordinal_buttons_step(changed: Seq<bool>, current: Seq<bool>, n: nat)
    ensures
        ordinal_button_diffs(changed, current, n + 1) == if n < changed.len() && changed[n as int] {
            ordinal_button_diffs(changed, current, n).push(
                OrdinalDiff::Button(n as usize, state_at(current, n as int)),
            )
        } else {
            ordinal_button_diffs(changed, current, n)
        },
{
    if n < changed.len() && changed[n as int] {
        assert(ordinal_button_diffs(changed, current, n + 1) =~= ordinal_button_diffs(
            changed,
            current,
            n,
        ).push(OrdinalDiff::Button(n as usize, state_at(current, n as int))));
    }
}

/// The bit vector of the pressed buttons.
pub fn pressed<B: Bits>(buttons: &Vec<ButtonState>) -> (b: B)
    ensures
        b.bits() == pressed_bits(buttons@, B::CAP as nat),
{
    let mut b = B::empty();
    let mut i: usize = 0;
    proof {
        b.lemma_capacity();
    }
    while i < buttons.len() && i < B::CAP
        invariant
            b.bits().len() == B::CAP,
            forall|k: int|
                0 <= k < B::CAP ==> #[trigger] b.bits()[k] == (k < i && k < buttons.len()
                    && buttons[k] == ButtonState::Pressed),
        decreases buttons.len() - i,
    {
        if buttons[i] == ButtonState::Pressed {
            b.set(i);
        }
        i = i + 1;
    }
    assert(b.bits() =~= pressed_bits(buttons@, B::CAP as nat));
    b
}

impl<B: Bits> StateDiff<B> {
    /// The diff with these parts: the new direction of every hat that
    /// changed, the buttons that changed and those now pressed, kind and
    /// value of every axis with a value, and the value of every slider with
    /// a value.
    pub fn new(
        dpad: Vec<DPadState>,
        changed: B,
        current: B,
        axis: Vec<(AxisIdent, AxisState)>,
        slider: Vec<SliderState>,
    ) -> (d: Self)
        ensures
            d@ == (DiffView {
                dpad: dpad@,
                changed: changed.bits(),
                current: current.bits(),
                axis: axis@,
                slider: slider@,
            }),
    {
        StateDiff { dpad, buttons: (changed, current), axis, slider }
    }

    /// What changed from a device whose pressed buttons were
    /// `previous_buttons` and whose hats pointed as `previous_hats` to the
    /// snapshot `current`.
    ///
    /// A button changed if it is pressed in one of the two and not in the
    /// other. A hat changed if its direction is not what it was. An axis or
    /// a slider is reported whenever the snapshot has a value for it.
    pub fn between(
        previous_buttons: B,
        previous_hats: &Vec<DPadState>,
        current: &DeviceObjectStates,
        specs: &DeviceSpecs,
    ) -> (d: Self)
        ensures
            d@ == state_diff(previous_buttons.bits(), previous_hats@, current@, specs@),
    {
        proof {
            previous_buttons.lemma_capacity();
        }
        let now: B = pressed(&current.buttons);
        let changed = previous_buttons.xor(pressed(&current.buttons));

        let mut dpad: Vec<DPadState> = Vec::new();
        let mut h: usize = 0;
        while h < current.hats.len()
            invariant
                h <= current.hats.len(),
                dpad@ == changed_hats(previous_hats@, current.hats@, h as nat),
            decreases current.hats.len() - h,
        {
            let before = if h < previous_hats.len() {
                previous_hats[h]
            } else {
                DPadState::Null
            };
            if current.hats[h] != before {
                dpad.push(current.hats[h]);
            }
            h = h + 1;
        }

        let mut axis: Vec<(AxisIdent, AxisState)> = Vec::new();
        let mut a: usize = 0;
        while a < current.axis.len()
            invariant
                a <= current.axis.len(),
                axis@ == present_axes(specs.axis@, current.axis@, a as nat),
            decreases current.axis.len() - a,
        {
            if a < specs.axis.len() {
                if let Some(value) = current.axis[a] {
                    axis.push((specs.axis[a].0, value));
                }
            }
            a = a + 1;
        }

        let mut slider: Vec<SliderState> = Vec::new();
        let mut s: usize = 0;
        while s < current.sliders.len()
            invariant
                s <= current.sliders.len(),
                slider@ == present_sliders(current.sliders@, s as nat),
            decreases current.sliders.len() - s,
        {
            if let Some(value) = current.sliders[s] {
                slider.push(value);
            }
            s = s + 1;
        }
        StateDiff { dpad, buttons: (changed, now), axis, slider }
    }

    /// The changes as an ordered list, named through the profile `J`:
    /// D-pad first, then the changed buttons in the order of the profile,
    /// then the axis values in the order of the profile's axis table, then
    /// the slider values.
    ///
    /// The profile's tables are what `J::buttons` and `J::axis` return.
    pub fn diffs<const BN: usize, J: Joystick<BN>>(&self) -> (out: Vec<ObjectDiff>)
        ensures
            exists|names: [Button; BN], defs: [Option<AxisDef>; AXIS_LIMIT]|
                call_ensures(J::buttons, (), names) && call_ensures(J::axis, (), defs) && out@
                    == object_diffs(self@, names@, defs@),
    {
        let mut out: Vec<ObjectDiff> = Vec::new();
        let mut h: usize = 0;
        while h < self.dpad.len()
            invariant
                h <= self.dpad.len(),
                out@ == dpad_diffs(self.dpad@.take(h as int)),
            decreases self.dpad.len() - h,
        {
            out.push(ObjectDiff::DPad(self.dpad[h]));
            proof {
                assert(out@ =~= dpad_diffs(self.dpad@.take(h + 1)));
            }
            h = h + 1;
        }
        assert(self.dpad@.take(h as int) =~= self.dpad@);

        let names = J::buttons();
        let defs = J::axis();
        let ghost changed = self.buttons.0.bits();
        let ghost current = self.buttons.1.bits();
        proof {
            self.buttons.0.lemma_capacity();
            self.buttons.1.lemma_capacity();
        }
        let mut idx: usize = 0;
        while idx < BN
            invariant
                idx <= BN,
                names@.len() == BN,
                changed == self.buttons.0.bits(),
                current == self.buttons.1.bits(),
                changed.len() == B::CAP,
                current.len() == B::CAP,
                out@ == dpad_diffs(self.dpad@) + button_diffs(changed, current, names@, idx as nat),
            decreases BN - idx,
        {
            proof {
                lemma_button_diffs_step(changed, current, names@, idx as nat);
            }
            if let Some(true) = self.buttons.0.bit(idx) {
                let on = match self.buttons.1.bit(idx) {
                    Some(v) => v,
                    None => false,
                };
                out.push(ObjectDiff::Button(names[idx], ButtonState::from(on)));
            }
            idx = idx + 1;
        }

        let ghost front = out@;
        let mut slot: usize = 0;
        while slot < AXIS_LIMIT
            invariant
                slot <= AXIS_LIMIT,
                defs@.len() == AXIS_LIMIT,
                out@ == front + axis_diffs(self.axis@, defs@, slot as nat),
            decreases AXIS_LIMIT - slot,
        {
            let ghost done = out@;
            match defs[slot] {
                Some(def) => {
                    let mut k: usize = 0;
                    while k < self.axis.len()
                        invariant
                            k <= self.axis.len(),
                            slot < AXIS_LIMIT,
                            out@ == done + slot_diffs(
                                self.axis@.take(k as int),
                                slot as int,
                                def.typ,
                            ),
                        decreases self.axis.len() - k,
                    {
                        proof {
                            lemma_slot_diffs_step(self.axis@, slot as int, def.typ, k as int);
                        }
                        if self.axis[k].0.index() == slot {
                            out.push(ObjectDiff::Axis(def.typ, self.axis[k].1));
                        }
                        k = k + 1;
                    }
                    assert(self.axis@.take(k as int) =~= self.axis@);
                },
                None => {},
            }
            slot = slot + 1;
        }

        let ghost body = out@;
        let mut s: usize = 0;
        while s < self.slider.len()
            invariant
                s <= self.slider.len(),
                out@ == body + slider_diffs(self.slider@.take(s as int)),
            decreases self.slider.len() - s,
        {
            out.push(ObjectDiff::Slider(self.slider[s]));
            proof {
                assert(out@ =~= body + slider_diffs(self.slider@.take(s + 1)));
            }
            s = s + 1;
        }
        assert(self.slider@.take(s as int) =~= self.slider@);
        assert(out@ == object_diffs(self@, names@, defs@));
        out
    }

    /// The changes as an ordered list, named without a profile: D-pad
    /// first, then the changed buttons by ordinal, then the axis values,
    /// then the slider values.
    pub fn ordinal_diffs(&self) -> (out: Vec<OrdinalDiff>)
        ensures
            out@ == ordinal_diffs(self@),
    {
        let mut out: Vec<OrdinalDiff> = Vec::new();
        let mut h: usize = 0;
        while h < self.dpad.len()
            invariant
                h <= self.dpad.len(),
                out@ == ordinal_dpad_diffs(self.dpad@.take(h as int)),
            decreases self.dpad.len() - h,
        {
            out.push(OrdinalDiff::DPad(self.dpad[h]));
            proof {
                assert(out@ =~= ordinal_dpad_diffs(self.dpad@.take(h + 1)));
            }
            h = h + 1;
        }
        assert(self.dpad@.take(h as int) =~= self.dpad@);

        let ghost changed = self.buttons.0.bits();
        let ghost current = self.buttons.1.bits();
        proof {
            self.buttons.0.lemma_capacity();
            self.buttons.1.lemma_capacity();
        }
        let mut idx: usize = 0;
        while idx < B::CAP
            invariant
                idx <= B::CAP,
                changed == self.buttons.0.bits(),
                current == self.buttons.1.bits(),
                changed.len() == B::CAP,
                current.len() == B::CAP,
                out@ == ordinal_dpad_diffs(self.dpad@) + ordinal_button_diffs(
                    changed,
                    current,
                    idx as nat,
                ),
            decreases B::CAP - idx,
        {
            proof {
                lemma_ordinal_buttons_step(changed, current, idx as nat);
            }
            if let Some(true) = self.buttons.0.bit(idx) {
                let on = match self.buttons.1.bit(idx) {
                    Some(v) => v,
                    None => false,
                };
                out.push(OrdinalDiff::Button(idx, ButtonState::from(on)));
            }
            idx = idx + 1;
        }

        let ghost front = out@;
        let mut k: usize = 0;
        while k < self.axis.len()
            invariant
                k <= self.axis.len(),
                out@ == front + ordinal_axis_diffs(self.axis@.take(k as int)),
            decreases self.axis.len() - k,
        {
            out.push(OrdinalDiff::Axis(self.axis[k].0, self.axis[k].1));
            proof {
                assert(out@ =~= front + ordinal_axis_diffs(self.axis@.take(k + 1)));
            }
            k = k + 1;
        }
        assert(self.axis@.take(k as int) =~= self.axis@);

        let ghost body = out@;
        let mut s: usize = 0;
        while s < self.slider.len()
            invariant
                s <= self.slider.len(),
                out@ == body + ordinal_slider_diffs(self.slider@.take(s as int)),
            decreases self.slider.len() - s,
        {
            out.push(OrdinalDiff::Slider(self.slider[s]));
            proof {
                assert(out@ =~= body + ordinal_slider_diffs(self.slider@.take(s + 1)));
            }
            s = s + 1;
        }
        assert(self.slider@.take(s as int) =~= self.slider@);
        out
    }
}

/// `true_positions(s, n)` lists exactly the positions below `n` at which
/// `s` holds `true`, each once and in ascending order; there are as many as
/// `s` counts ones below `n`.
pub proof fn lemma_true_positions(s: Seq<bool>, n: nat)
    ensures
        forall|j: int|
            0 <= j < true_positions(s, n).len() ==> {
                let p = #[trigger] true_positions(s, n)[j];
                0 <= p < n && p < s.len() && s[p]
            },
        forall|i: int, j: int|
            0 <= i < j < true_positions(s, n).len() ==> true_positions(s, n)[i] < true_positions(
                s,
                n,
            )[j],
        forall|p: int|
            0 <= p < n && p < s.len() && s[p] ==> #[trigger] true_positions(s, n).contains(p),
        n <= s.len() ==> true_positions(s, n).len() == count_true(s.take(n as int)),
    decreases n,
{
    if n > 0 {
        let m = (n - 1) as nat;
        lemma_true_positions(s, m);
        let head = true_positions(s, m);
        let all = true_positions(s, n);
        assert forall|p: int| 0 <= p < n && p < s.len() && s[p] implies #[trigger] all.contains(
            p,
        ) by {
            if p < m {
                assert(head.contains(p));
                let j = choose|j: int| 0 <= j < head.len() && head[j] == p;
                assert(all[j] == p);
            } else {
                assert(all[all.len() - 1] == p);
            }
        }
        if n <= s.len() {
            assert(s.take(n as int).drop_last() =~= s.take(m as int));
        }
    }
}

/// The diffs of a report come in a fixed order: D-pad,
/// then buttons, then axes, then sliders. The button diffs are exactly the
/// set bits of the difference between the buttons pressed before and the
/// buttons pressed now, as far as the profile names them: one diff for each
/// such bit, in ascending order of the ordinals, with the name the profile
/// gives the ordinal and the state the button has now.
pub proof fn lemma_diffs_follow_changes(
    previous_buttons: Seq<bool>,
    previous_hats: Seq<DPadState>,
    current: StatesView,
    specs: SpecsView,
    names: Seq<Button>,
    defs: Seq<Option<AxisDef>>,
)
    ensures
        ({
            let d = state_diff(previous_buttons, previous_hats, current, specs);
            let now = pressed_bits(current.buttons, previous_buttons.len());
            let positions = true_positions(difference(previous_buttons, now), names.len());
            let buttons = button_diffs(d.changed, d.current, names, names.len());
            &&& object_diffs(d, names, defs) == dpad_diffs(d.dpad) + buttons + axis_diffs(
                d.axis,
                defs,
                defs.len(),
            ) + slider_diffs(d.slider)
            &&& buttons.len() == positions.len()
            &&& forall|j: int|
                0 <= j < positions.len() ==> #[trigger] buttons[j] == ObjectDiff::Button(
                    names[positions[j]],
                    ButtonState::of(now[positions[j]]),
                )
            &&& forall|i: int, j: int|
                0 <= i < j < positions.len() ==> positions[i] < positions[j]
            &&& forall|p: int|
                0 <= p < names.len() && p < previous_buttons.len() ==> (
                #[trigger] positions.contains(p) <==> previous_buttons[p] != now[p])
            &&& forall|p: int|
                positions.contains(p) ==> 0 <= p < names.len() && p < previous_buttons.len()
        }),
{
    let now = pressed_bits(current.buttons, previous_buttons.len());
    let x = difference(previous_buttons, now);
    lemma_true_positions(x, names.len());
    let positions = true_positions(x, names.len());
    assert forall|p: int|
        0 <= p < names.len() && p < previous_buttons.len() implies (#[trigger] positions.contains(p)
        <==> previous_buttons[p] != now[p]) by {
        if positions.contains(p) {
            let j = choose|j: int| 0 <= j < positions.len() && positions[j] == p;
            assert(x[positions[j]]);
        }
    }
    assert forall|p: int| positions.contains(p) implies 0 <= p < names.len() && p
        < previous_buttons.len() by {
        let j = choose|j: int| 0 <= j < positions.len() && positions[j] == p;
        assert(x[positions[j]]);
    }
}

} // verus!
