//! Capability resolution: from the capability records of a device to its
//! object counts and value ranges, and to the mapping from report field
//! indices to objects.

use crate::AxisIdent;
use std::collections::HashMap;
use vstd::prelude::*;

verus! {

broadcast use vstd::std_specs::hash::group_hash_axioms;

/// Usage page of the generic desktop controls.
pub const USAGE_PAGE_GENERIC: u16 = 0x01;

pub const USAGE_JOYSTICK: u16 = 0x04;

pub const USAGE_GAMEPAD: u16 = 0x05;

pub const USAGE_X: u16 = 0x30;

pub const USAGE_Y: u16 = 0x31;

pub const USAGE_Z: u16 = 0x32;

pub const USAGE_RX: u16 = 0x33;

pub const USAGE_RY: u16 = 0x34;

pub const USAGE_RZ: u16 = 0x35;

pub const USAGE_SLIDER: u16 = 0x36;

pub const USAGE_HATSWITCH: u16 = 0x39;

/// The report fields a capability record covers, with their usage.
#[derive(Debug, Clone, Copy, PartialEq, Eq)]
pub enum FieldSpan {
    /// One field with one usage.
    Single { index: u16, usage: u16 },
    /// The fields `index_min ..= index_max`; none if `index_min > index_max`.
    Range { index_min: u16, index_max: u16, usage_min: u16, usage_max: u16 },
}

impl FieldSpan {
    /// The field indices of the span, in ascending order.
    pub open spec fn fields(self) -> Seq<u16> {
        match self {
            FieldSpan::Single { index, .. } => seq![index],
            FieldSpan::Range { index_min, index_max, .. } => if index_min <= index_max {
                Seq::new((index_max - index_min + 1) as nat, |j: int| (index_min + j) as u16)
            } else {
                Seq::empty()
            },
        }
    }

    pub open spec fn spec_first_index(self) -> u16 {
        match self {
            FieldSpan::Single { index, .. } => index,
            FieldSpan::Range { index_min, .. } => index_min,
        }
    }

    pub open spec fn spec_first_usage(self) -> u16 {
        match self {
            FieldSpan::Single { usage, .. } => usage,
            FieldSpan::Range { usage_min, .. } => usage_min,
        }
    }

    /// The field index of a single, the lowest index of a range.
    #[verifier::when_used_as_spec(spec_first_index)]
    pub fn first_index(self) -> (r: u16)
        ensures
            r == self.spec_first_index(),
    {
        match self {
            FieldSpan::Single { index, .. } => index,
            FieldSpan::Range { index_min, .. } => index_min,
        }
    }

    /// The usage of a single, the lowest usage of a range.
    #[verifier::when_used_as_spec(spec_first_usage)]
    pub fn first_usage(self) -> (r: u16)
        ensures
            r == self.spec_first_usage(),
    {
        match self {
            FieldSpan::Single { usage, .. } => usage,
            FieldSpan::Range { usage_min, .. } => usage_min,
        }
    }
}

/// One capability record of a device descriptor.
#[derive(Debug, Clone, Copy, PartialEq, Eq)]
pub struct Capability {
    pub usage_page: u16,
    pub span: FieldSpan,
    pub logical_min: i32,
    pub logical_max: i32,
}

/// The object a report field belongs to. Ordinals count from zero,
/// separately for each kind.
#[derive(Debug, Clone, Copy, PartialEq, Eq)]
pub enum DeviceObjectIndex {
    Button(usize),
    Axis(usize),
    Slider(usize),
    Hat(usize),
    /// A field of no known kind, with its usage page and usage.
    Unknown(u16, u16),
}

/// What a value capability record describes.
#[derive(Debug, Clone, Copy, PartialEq, Eq)]
pub enum ValueKind {
    Slider,
    Hat,
    Axis(AxisIdent),
    Unknown,
}

/// Something noteworthy, but not fatal, met while resolving a descriptor.
#[derive(Debug, Clone, Copy, PartialEq, Eq)]
pub enum Diagnostic {
    /// A field index was assigned again; `previous` is what it held before.
    DuplicateIndex { index: u16, previous: DeviceObjectIndex },
    /// A hat switch declares a logical range other than 0 to 7.
    HatRange { min: i32, max: i32 },
}

#[derive(Debug, Clone, Copy, PartialEq, Eq)]
pub enum ResolveError {
    /// The descriptor declares more buttons than the given limit.
    TooManyButtons,
}

pub open spec fn value_kind(usage_page: u16, usage: u16) -> ValueKind {
    if usage_page != USAGE_PAGE_GENERIC {
        ValueKind::Unknown
    } else if usage == USAGE_SLIDER {
        ValueKind::Slider
    } else if usage == USAGE_HATSWITCH {
        ValueKind::Hat
    } else if usage == USAGE_X {
        ValueKind::Axis(AxisIdent::X)
    } else if usage == USAGE_Y {
        ValueKind::Axis(AxisIdent::Y)
    } else if usage == USAGE_Z {
        ValueKind::Axis(AxisIdent::Z)
    } else if usage == USAGE_RX {
        ValueKind::Axis(AxisIdent::RX)
    } else if usage == USAGE_RY {
        ValueKind::Axis(AxisIdent::RY)
    } else if usage == USAGE_RZ {
        ValueKind::Axis(AxisIdent::RZ)
    } else {
        ValueKind::Unknown
    }
}

/// Classifies a value capability by its usage page and usage.
pub fn classify(usage_page: u16, usage: u16) -> (kind: ValueKind)
    ensures
        kind == value_kind(usage_page, usage),
{
    if usage_page != USAGE_PAGE_GENERIC {
        ValueKind::Unknown
    } else if usage == USAGE_SLIDER {
        ValueKind::Slider
    } else if usage == USAGE_HATSWITCH {
        ValueKind::Hat
    } else if usage == USAGE_X {
        ValueKind::Axis(AxisIdent::X)
    } else if usage == USAGE_Y {
        ValueKind::Axis(AxisIdent::Y)
    } else if usage == USAGE_Z {
        ValueKind::Axis(AxisIdent::Z)
    } else if usage == USAGE_RX {
        ValueKind::Axis(AxisIdent::RX)
    } else if usage == USAGE_RY {
        ValueKind::Axis(AxisIdent::RY)
    } else if usage == USAGE_RZ {
        ValueKind::Axis(AxisIdent::RZ)
    } else {
        ValueKind::Unknown
    }
}

/// The range a descriptor means by `(min, max)`: the empty range 0 to -1
/// stands for the unsigned 16-bit range, every other range for itself.
pub open spec fn normalized(min: i32, max: i32) -> (i32, i32) {
    if min == 0 && max == -1 {
        (0i32, 65535i32)
    } else {
        (min, max)
    }
}

pub fn normalize_range(min: i32, max: i32) -> (r: (i32, i32))
    ensures
        r == normalized(min, max),
{
    if min == 0 && max == -1 {
        (0, 65535)
    } else {
        (min, max)
    }
}

/// Counts and value ranges of the objects of one device.
#[derive(Debug, Clone, PartialEq, Eq)]
pub struct DeviceSpecs {
    pub button_count: usize,
    /// Kind and value range of each axis, by ordinal.
    pub axis: Vec<(AxisIdent, (i32, i32))>,
    /// Value range of each slider, by ordinal.
    pub sliders: Vec<(i32, i32)>,
    pub hats_count: usize,
}

/// The counts and value ranges of a `DeviceSpecs`, as mathematical values.
pub struct SpecsView {
    pub button_count: nat,
    pub axis: Seq<(AxisIdent, (i32, i32))>,
    pub sliders: Seq<(i32, i32)>,
    pub hats_count: nat,
}

impl View for DeviceSpecs {
    type V = SpecsView;

    open spec fn view(&self) -> SpecsView {
        SpecsView {
            button_count: self.button_count as nat,
            axis: self.axis@,
            sliders: self.sliders@,
            hats_count: self.hats_count as nat,
        }
    }
}

/// The object of each report field index of one device.
pub struct DataIndexMapping {
    map: HashMap<u16, DeviceObjectIndex>,
}

impl View for DataIndexMapping {
    type V = Map<u16, DeviceObjectIndex>;

    closed spec fn view(&self) -> Map<u16, DeviceObjectIndex> {
        self.map@
    }
}

impl DataIndexMapping {
    pub fn new() -> (r: Self)
        ensures
            r@ == Map::<u16, DeviceObjectIndex>::empty(),
    {
        DataIndexMapping { map: HashMap::new() }
    }

    /// The object of field `index`, if the field has one.
    pub fn get(&self, index: u16) -> (r: Option<DeviceObjectIndex>)
        ensures
            r == (if self@.contains_key(index) {
                Some(self@[index])
            } else {
                None
            }),
    {
        match self.map.get(&index) {
            Some(object) => Some(*object),
            None => None,
        }
    }

    /// Number of field indices that have an object.
    pub fn len(&self) -> (n: usize)
        ensures
            n == self@.len(),
    {
        self.map.len()
    }

    fn insert(&mut self, index: u16, object: DeviceObjectIndex) -> (previous: Option<
        DeviceObjectIndex,
    >)
        ensures
            final(self)@ == old(self)@.insert(index, object),
            previous == (if old(self)@.contains_key(index) {
                Some(old(self)@[index])
            } else {
                None
            }),
    {
        self.map.insert(index, object)
    }
}

/// What resolving a descriptor yields.
pub struct Resolution {
    pub specs: DeviceSpecs,
    pub mapping: DataIndexMapping,
    /// In the order in which the records gave rise to them.
    pub diagnostics: Vec<Diagnostic>,
}

/// A resolution, complete or under way, as a mathematical value.
pub struct Draft {
    pub specs: SpecsView,
    pub mapping: Map<u16, DeviceObjectIndex>,
    pub diagnostics: Seq<Diagnostic>,
}

impl View for Resolution {
    type V = Draft;

    open spec fn view(&self) -> Draft {
        Draft { specs: self.specs@, mapping: self.mapping@, diagnostics: self.diagnostics@ }
    }
}

/// Assigning `object` to a field that already has one is worth a diagnostic,
/// unless both are of no known kind.
pub open spec fn collides(
    mapping: Map<u16, DeviceObjectIndex>,
    index: u16,
    object: DeviceObjectIndex,
) -> bool {
    mapping.contains_key(index) && !(mapping[index] is Unknown && object is Unknown)
}

impl Draft {
    /// Nothing resolved yet.
    pub open spec fn empty() -> Draft {
        Draft {
            specs: SpecsView {
                button_count: 0,
                axis: Seq::empty(),
                sliders: Seq::empty(),
                hats_count: 0,
            },
            mapping: Map::empty(),
            diagnostics: Seq::empty(),
        }
    }

    /// Field `index` now belongs to `object`, whatever it belonged to before.
    pub open spec fn record(self, index: u16, object: DeviceObjectIndex) -> Draft {
        Draft {
            specs: self.specs,
            mapping: self.mapping.insert(index, object),
            diagnostics: if collides(self.mapping, index, object) {
                self.diagnostics.push(
                    Diagnostic::DuplicateIndex { index, previous: self.mapping[index] },
                )
            } else {
                self.diagnostics
            },
        }
    }

    /// Field `index` is the next button.
    pub open spec fn add_button(self, index: u16) -> Draft {
        let d = self.record(index, DeviceObjectIndex::Button(self.specs.button_count as usize));
        Draft {
            specs: SpecsView { button_count: self.specs.button_count + 1, ..self.specs },
            ..d
        }
    }

    /// The fields are the next buttons, in their order.
    pub open spec fn add_buttons(self, fields: Seq<u16>) -> Draft
        decreases fields.len(),
    {
        if fields.len() == 0 {
            self
        } else {
            self.add_buttons(fields.drop_last()).add_button(fields.last())
        }
    }

    /// A hat switch whose range is not 0 to 7 is noted.
    pub open spec fn note_hat_range(self, min: i32, max: i32) -> Draft {
        if min == 0 && max == 7 {
            self
        } else {
            Draft { diagnostics: self.diagnostics.push(Diagnostic::HatRange { min, max }), ..self }
        }
    }

    /// The first field of value record `c` is the next object of the kind
    /// that the record's usage names.
    pub open spec fn add_value(self, c: Capability) -> Draft {
        let index = c.span.first_index();
        let usage = c.span.first_usage();
        let range = normalized(c.logical_min, c.logical_max);
        match value_kind(c.usage_page, usage) {
            ValueKind::Slider => {
                let d = self.record(
                    index,
                    DeviceObjectIndex::Slider(self.specs.sliders.len() as usize),
                );
                Draft {
                    specs: SpecsView { sliders: self.specs.sliders.push(range), ..self.specs },
                    ..d
                }
            },
            ValueKind::Hat => {
                let d = self.note_hat_range(c.logical_min, c.logical_max).record(
                    index,
                    DeviceObjectIndex::Hat(self.specs.hats_count as usize),
                );
                Draft {
                    specs: SpecsView { hats_count: self.specs.hats_count + 1, ..self.specs },
                    ..d
                }
            },
            ValueKind::Axis(kind) => {
                let d = self.record(index, DeviceObjectIndex::Axis(self.specs.axis.len() as usize));
                Draft {
                    specs: SpecsView { axis: self.specs.axis.push((kind, range)), ..self.specs },
                    ..d
                }
            },
            ValueKind::Unknown => self.record(
                index,
                DeviceObjectIndex::Unknown(c.usage_page, usage),
            ),
        }
    }

    /// The value records are taken in their order.
    pub open spec fn add_values(self, caps: Seq<Capability>) -> Draft
        decreases caps.len(),
    {
        if caps.len() == 0 {
            self
        } else {
            self.add_values(caps.drop_last()).add_value(caps.last())
        }
    }
}

/// The field indices of all button records, in the order of the records and,
/// within a record, in ascending order.
pub open spec fn button_fields(caps: Seq<Capability>) -> Seq<u16>
    decreases caps.len(),
{
    if caps.len() == 0 {
        Seq::empty()
    } else {
        button_fields(caps.drop_last()) + caps.last().span.fields()
    }
}

/// What a descriptor with these button and value records resolves to.
pub open spec fn resolved(button_caps: Seq<Capability>, value_caps: Seq<Capability>) -> Draft {
    Draft::empty().add_buttons(button_fields(button_caps)).add_values(value_caps)
}

proof fn lemma_add_buttons_concat(d: Draft, a: Seq<u16>, b: Seq<u16>)
    ensures
        d.add_buttons(a + b) == d.add_buttons(a).add_buttons(b),
    decreases b.len(),
{
    if b.len() == 0 {
        assert(a + b =~= a);
    } else {
        lemma_add_buttons_concat(d, a, b.drop_last());
        assert((a + b).drop_last() =~= a + b.drop_last());
    }
}

proof fn lemma_add_buttons_count(d: Draft, fields: Seq<u16>)
    ensures
        d.add_buttons(fields).specs.button_count == d.specs.button_count + fields.len(),
        d.add_buttons(fields).specs.axis == d.specs.axis,
        d.add_buttons(fields).specs.sliders == d.specs.sliders,
        d.add_buttons(fields).specs.hats_count == d.specs.hats_count,
    decreases fields.len(),
{
    if fields.len() > 0 {
        lemma_add_buttons_count(d, fields.drop_last());
    }
}

proof fn lemma_add_values_count(d: Draft, caps: Seq<Capability>)
    ensures
        d.add_values(caps).specs.button_count == d.specs.button_count,
        d.add_values(caps).specs.hats_count <= d.specs.hats_count + caps.len(),
    decreases caps.len(),
{
    if caps.len() > 0 {
        lemma_add_values_count(d, caps.drop_last());
    }
}

proof fn lemma_button_fields_step(caps: Seq<Capability>, i: int)
    requires
        0 <= i < caps.len(),
    ensures
        button_fields(caps.take(i + 1)) == button_fields(caps.take(i)) + caps[i].span.fields(),
{
    assert(caps.take(i + 1).drop_last() =~= caps.take(i));
}

proof fn lemma_button_fields_grow(caps: Seq<Capability>, i: int)
    requires
        0 <= i <= caps.len(),
    ensures
        button_fields(caps.take(i)).len() <= button_fields(caps).len(),
    decreases caps.len() - i,
{
    if i == caps.len() {
        assert(caps.take(i) =~= caps);
    } else {
        lemma_button_fields_step(caps, i);
        lemma_button_fields_grow(caps, i + 1);
    }
}

fn is_unknown(object: &DeviceObjectIndex) -> (r: bool)
    ensures
        r == (*object is Unknown),
{
    match object {
        DeviceObjectIndex::Unknown(_, _) => true,
        _ => false,
    }
}

impl Resolution {
    fn new() -> (r: Self)
        ensures
            r@ == Draft::empty(),
    {
        Resolution {
            specs: DeviceSpecs {
                button_count: 0,
                axis: Vec::new(),
                sliders: Vec::new(),
                hats_count: 0,
            },
            mapping: DataIndexMapping::new(),
            diagnostics: Vec::new(),
        }
    }

    fn record(&mut self, index: u16, object: DeviceObjectIndex)
        ensures
            final(self)@ == old(self)@.record(index, object),
    {
        let previous = self.mapping.insert(index, object);
        if let Some(held) = previous {
            if !(is_unknown(&held) && is_unknown(&object)) {
                self.diagnostics.push(Diagnostic::DuplicateIndex { index, previous: held });
            }
        }
    }

    fn add_button(&mut self, index: u16)
        requires
            old(self).specs.button_count < usize::MAX,
        ensures
            final(self)@ == old(self)@.add_button(index),
    {
        self.record(index, DeviceObjectIndex::Button(self.specs.button_count));
        self.specs.button_count = self.specs.button_count + 1;
    }

    fn add_value(&mut self, c: Capability)
        requires
            old(self).specs.hats_count < usize::MAX,
        ensures
            final(self)@ == old(self)@.add_value(c),
    {
        let index = c.span.first_index();
        let usage = c.span.first_usage();
        match classify(c.usage_page, usage) {
            ValueKind::Slider => {
                self.record(index, DeviceObjectIndex::Slider(self.specs.sliders.len()));
                self.specs.sliders.push(normalize_range(c.logical_min, c.logical_max));
            },
            ValueKind::Hat => {
                if !(c.logical_min == 0 && c.logical_max == 7) {
                    self.diagnostics.push(
                        Diagnostic::HatRange { min: c.logical_min, max: c.logical_max },
                    );
                }
                self.record(index, DeviceObjectIndex::Hat(self.specs.hats_count));
                self.specs.hats_count = self.specs.hats_count + 1;
            },
            ValueKind::Axis(kind) => {
                self.record(index, DeviceObjectIndex::Axis(self.specs.axis.len()));
                self.specs.axis.push((kind, normalize_range(c.logical_min, c.logical_max)));
            },
            ValueKind::Unknown => {
                self.record(index, DeviceObjectIndex::Unknown(c.usage_page, usage));
            },
        }
    }
}

/// Resolves the capability records of one device.
///
/// Every field of every button record becomes the next button; the first
/// field of every value record becomes the next slider, hat or axis, or a
/// field of no known kind. A descriptor with more than `button_limit`
/// buttons is refused.
pub fn resolve(
    button_caps: &Vec<Capability>,
    value_caps: &Vec<Capability>,
    button_limit: usize,
) -> (r: Result<Resolution, ResolveError>)
    ensures
        match r {
            Ok(res) => button_fields(button_caps@).len() <= button_limit && res@ == resolved(
                button_caps@,
                value_caps@,
            ),
            Err(e) => button_fields(button_caps@).len() > button_limit,
        },
{
    let mut st = Resolution::new();
    let mut i: usize = 0;
    while i < button_caps.len()
        invariant
            i <= button_caps.len(),
            st@ == Draft::empty().add_buttons(button_fields(button_caps@.take(i as int))),
            st.specs.button_count == button_fields(button_caps@.take(i as int)).len(),
            st.specs.button_count <= button_limit,
        decreases button_caps.len() - i,
    {
        let span = button_caps[i].span;
        let ghost before = button_fields(button_caps@.take(i as int));
        let ghost fields = span.fields();
        proof {
            lemma_button_fields_step(button_caps@, i as int);
            lemma_button_fields_grow(button_caps@, i + 1);
        }
        match span {
            FieldSpan::Single { index, .. } => {
                if st.specs.button_count >= button_limit {
                    return Err(ResolveError::TooManyButtons);
                }
                st.add_button(index);
                proof {
                    let base = Draft::empty().add_buttons(before);
                    assert(fields.drop_last() =~= Seq::<u16>::empty());
                    assert(base.add_buttons(fields.drop_last()) == base);
                    assert(base.add_buttons(fields) == base.add_button(index));
                    lemma_add_buttons_concat(Draft::empty(), before, fields);
                }
            },
            FieldSpan::Range { index_min, index_max, .. } => {
                let mut next: u32 = index_min as u32;
                let end: u32 = if index_min <= index_max {
                    index_max as u32 + 1
                } else {
                    index_min as u32
                };
                while next < end
                    invariant
                        index_min <= next <= end,
                        end == index_min + fields.len(),
                        fields == span.fields(),
                        span == (FieldSpan::Range {
                            index_min,
                            index_max,
                            usage_min: span->usage_min,
                            usage_max: span->usage_max,
                        }),
                        st@ == Draft::empty().add_buttons(before).add_buttons(
                            fields.take(next - index_min),
                        ),
                        st.specs.button_count == before.len() + (next - index_min),
                        st.specs.button_count <= button_limit,
                        before.len() + fields.len() <= button_fields(button_caps@).len(),
                    decreases end - next,
                {
                    if st.specs.button_count >= button_limit {
                        return Err(ResolveError::TooManyButtons);
                    }
                    let ghost j = next - index_min;
                    st.add_button(next as u16);
                    proof {
                        assert(fields.take(j + 1).drop_last() =~= fields.take(j));
                        assert(fields.take(j + 1).last() == next as u16);
                    }
                    next = next + 1;
                }
                proof {
                    assert(next - index_min == fields.len());
                    assert(fields.take(fields.len() as int) =~= fields);
                    lemma_add_buttons_concat(Draft::empty(), before, fields);
                }
            },
        }
        i = i + 1;
    }
    assert(button_caps@.take(i as int) =~= button_caps@);
    let ghost base = st@;
    proof {
        lemma_add_buttons_count(Draft::empty(), button_fields(button_caps@));
    }
    let mut k: usize = 0;
    while k < value_caps.len()
        invariant
            k <= value_caps.len(),
            st@ == base.add_values(value_caps@.take(k as int)),
            st.specs.hats_count <= base.specs.hats_count + k,
            base.specs.hats_count == 0,
        decreases value_caps.len() - k,
    {
        proof {
            assert(value_caps@.take(k + 1).drop_last() =~= value_caps@.take(k as int));
        }
        st.add_value(value_caps[k]);
        k = k + 1;
    }
    assert(value_caps@.take(k as int) =~= value_caps@);
    Ok(st)
}

/// Whether the field at position `k` of `fields` is named again by a later
/// position or by the first field of a value record.
pub open spec fn named_later(fields: Seq<u16>, value_caps: Seq<Capability>, k: int) -> bool {
    ||| exists|j: int| k < j < fields.len() && #[trigger] fields[j] == fields[k]
    ||| exists|v: int|
        0 <= v < value_caps.len() && (#[trigger] value_caps[v]).span.first_index() == fields[k]
}

proof fn lemma_buttons_dense(fields: Seq<u16>)
    requires
        fields.len() <= usize::MAX,
    ensures
        ({
            let d = Draft::empty().add_buttons(fields);
            &&& forall|f: u16| #[trigger]
                d.mapping.contains_key(f) ==> match d.mapping[f] {
                    DeviceObjectIndex::Button(k) => k < fields.len() && fields[k as int] == f,
                    _ => false,
                }
            &&& forall|k: int|
                0 <= k < fields.len() && (forall|j: int|
                    k < j < fields.len() ==> #[trigger] fields[j] != fields[k])
                    ==> d.mapping.contains_key(#[trigger] fields[k]) && d.mapping[fields[k]]
                    == DeviceObjectIndex::Button(k as usize)
        }),
    decreases fields.len(),
{
    if fields.len() > 0 {
        let head = fields.drop_last();
        lemma_buttons_dense(head);
        lemma_add_buttons_count(Draft::empty(), head);
        let p = Draft::empty().add_buttons(head);
        let d = Draft::empty().add_buttons(fields);
        assert(d.mapping == p.mapping.insert(
            fields.last(),
            DeviceObjectIndex::Button(head.len() as usize),
        ));
        assert forall|k: int|
            0 <= k < fields.len() && (forall|j: int|
                k < j < fields.len() ==> #[trigger] fields[j] != fields[k])
            implies d.mapping.contains_key(#[trigger] fields[k]) && d.mapping[fields[k]]
            == DeviceObjectIndex::Button(k as usize) by {
            if k < head.len() {
                assert(fields[head.len() as int] != fields[k]);
                assert(head[k] == fields[k]);
                assert forall|j: int| k < j < head.len() implies #[trigger] head[j] != head[k] by {
                    assert(fields[j] != fields[k]);
                }
            }
        }
    }
}

proof fn lemma_values_keep_buttons(d: Draft, caps: Seq<Capability>)
    ensures
        ({
            let r = d.add_values(caps);
            &&& forall|f: u16|
                #[trigger] r.mapping.contains_key(f) && r.mapping[f] is Button
                    ==> d.mapping.contains_key(f) && d.mapping[f] == r.mapping[f]
            &&& forall|f: u16|
                #[trigger] d.mapping.contains_key(f) && (forall|v: int|
                    0 <= v < caps.len() ==> (#[trigger] caps[v]).span.first_index() != f)
                    ==> r.mapping.contains_key(f) && r.mapping[f] == d.mapping[f]
        }),
    decreases caps.len(),
{
    if caps.len() > 0 {
        let head = caps.drop_last();
        lemma_values_keep_buttons(d, head);
        let p = d.add_values(head);
        let r = d.add_values(caps);
        let c = caps.last();
        assert(r == p.add_value(c));
        assert(r.mapping.dom() == p.mapping.dom().insert(c.span.first_index()));
        assert(!(r.mapping[c.span.first_index()] is Button));
        assert forall|f: u16|
            #[trigger] d.mapping.contains_key(f) && (forall|v: int|
                0 <= v < caps.len() ==> (#[trigger] caps[v]).span.first_index()
                    != f) implies r.mapping.contains_key(f) && r.mapping[f] == d.mapping[f] by {
            assert(caps[caps.len() - 1].span.first_index() != f);
            assert forall|v: int| 0 <= v < head.len() implies (#[trigger] head[v]).span
                .first_index() != f by {
                assert(caps[v].span.first_index() != f);
            }
        }
    }
}

/// Button ordinals are dense and follow the order of the descriptor.
///
/// The resolved button count is the number of button fields. A field of the
/// mapping that holds `Button(k)` is the `k`-th button field, so no ordinal
/// at or above the count occurs. And the `k`-th button field holds
/// `Button(k)`, unless the descriptor names that field again later: where no
/// field is named twice, the ordinals of the mapping are exactly
/// `0 .. button_count`.
pub proof fn lemma_button_ordinals_dense(
    button_caps: Seq<Capability>,
    value_caps: Seq<Capability>,
)
    requires
        button_fields(button_caps).len() <= usize::MAX,
    ensures
        ({
            let fields = button_fields(button_caps);
            let r = resolved(button_caps, value_caps);
            &&& r.specs.button_count == fields.len()
            &&& forall|f: u16| #[trigger]
                r.mapping.contains_key(f) ==> match r.mapping[f] {
                    DeviceObjectIndex::Button(k) => k < fields.len() && fields[k as int] == f,
                    _ => true,
                }
            &&& forall|k: int|
                0 <= k < fields.len() && !named_later(fields, value_caps, k)
                    ==> r.mapping.contains_key(#[trigger] fields[k]) && r.mapping[fields[k]]
                    == DeviceObjectIndex::Button(k as usize)
        }),
{
    let fields = button_fields(button_caps);
    let d = Draft::empty().add_buttons(fields);
    let r = resolved(button_caps, value_caps);
    lemma_buttons_dense(fields);
    lemma_add_buttons_count(Draft::empty(), fields);
    lemma_add_values_count(d, value_caps);
    lemma_values_keep_buttons(d, value_caps);
    assert forall|k: int|
        0 <= k < fields.len() && !named_later(
            fields,
            value_caps,
            k,
        ) implies r.mapping.contains_key(#[trigger] fields[k]) && r.mapping[fields[k]]
        == DeviceObjectIndex::Button(k as usize) by {
        assert(d.mapping.contains_key(fields[k]));
    }
}

/// A descriptor resolves to as many buttons as its button records have
/// fields.
pub proof fn lemma_resolved_button_count(
    button_caps: Seq<Capability>,
    value_caps: Seq<Capability>,
)
    ensures
        resolved(button_caps, value_caps).specs.button_count == button_fields(button_caps).len(),
{
    let fields = button_fields(button_caps);
    lemma_add_buttons_count(Draft::empty(), fields);
    lemma_add_values_count(Draft::empty().add_buttons(fields), value_caps);
}

/// Whether the device whose objects `specs` counts has the object.
pub open spec fn within(object: DeviceObjectIndex, specs: SpecsView) -> bool {
    match object {
        DeviceObjectIndex::Button(k) => k < specs.button_count,
        DeviceObjectIndex::Axis(k) => k < specs.axis.len(),
        DeviceObjectIndex::Slider(k) => k < specs.sliders.len(),
        DeviceObjectIndex::Hat(k) => k < specs.hats_count,
        DeviceObjectIndex::Unknown(_, _) => true,
    }
}

proof fn lemma_values_within(d: Draft, caps: Seq<Capability>)
    requires
        forall|f: u16| #[trigger] d.mapping.contains_key(f) ==> within(d.mapping[f], d.specs),
        d.specs.axis.len() + caps.len() <= usize::MAX,
        d.specs.sliders.len() + caps.len() <= usize::MAX,
        d.specs.hats_count + caps.len() <= usize::MAX,
    ensures
        ({
            let r = d.add_values(caps);
            &&& forall|f: u16| #[trigger]
                r.mapping.contains_key(f) ==> within(r.mapping[f], r.specs)
            &&& r.specs.axis.len() <= d.specs.axis.len() + caps.len()
            &&& r.specs.sliders.len() <= d.specs.sliders.len() + caps.len()
            &&& r.specs.hats_count <= d.specs.hats_count + caps.len()
        }),
    decreases caps.len(),
{
    if caps.len() > 0 {
        lemma_values_within(d, caps.drop_last());
        let p = d.add_values(caps.drop_last());
        let r = d.add_values(caps);
        assert(r == p.add_value(caps.last()));
        assert forall|f: u16| #[trigger] r.mapping.contains_key(f) implies within(
            r.mapping[f],
            r.specs,
        ) by {
            if f != caps.last().span.first_index() {
                assert(p.mapping.contains_key(f));
            }
        }
    }
}

/// Every ordinal of the mapping names an object the device has: it is below
/// the count of its kind.
pub proof fn lemma_ordinals_within_counts(
    button_caps: Seq<Capability>,
    value_caps: Seq<Capability>,
)
    requires
        button_fields(button_caps).len() <= usize::MAX,
        value_caps.len() <= usize::MAX,
    ensures
        ({
            let r = resolved(button_caps, value_caps);
            forall|f: u16| #[trigger] r.mapping.contains_key(f) ==> within(r.mapping[f], r.specs)
        }),
{
    let fields = button_fields(button_caps);
    let d = Draft::empty().add_buttons(fields);
    lemma_buttons_dense(fields);
    lemma_add_buttons_count(Draft::empty(), fields);
    lemma_values_within(d, value_caps);
}

} // verus!
