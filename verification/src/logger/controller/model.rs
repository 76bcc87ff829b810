//! Controller state and the events that a new snapshot of it produces:
//! button edges, and analog values after dead-zone and quantization.
use vstd::prelude::*;
use crate::name_set::{
    contains_name, insert_name, name_set, names_of, strictly_ascending,
};
use crate::text::{str_eq, string_of};

verus! {

/// Distance from the stick centre that still counts as no input.
pub const STICK_DEADZONE_THRESHOLD: i32 = 16;
/// Trigger values at or below this count as released.
pub const TRIGGER_DEADZONE_THRESHOLD: i32 = 30;
/// Resting value of a stick axis.
pub const STICK_CENTER_VALUE: i32 = 128;
/// Smallest analog value.
pub const ANALOG_MIN_VALUE: i32 = 0;
/// Largest analog value.
pub const ANALOG_MAX_VALUE: i32 = 255;
/// Number of quantization bins over the analog range.
pub const ANALOG_QUANTIZATION_BINS: i32 = 32;
/// Width of one quantization bin.
pub const ANALOG_QUANTIZATION_BIN_SIZE: i32 = 8;

/// Whether a button went down or came up.
#[derive(Debug, Clone, Copy, PartialEq, Eq, Structural)]
pub enum ControllerButtonEventKind {
    Down,
    Up,
}

impl ControllerButtonEventKind {
    /// The value written in the `event` column.
    pub fn as_csv_value(self) -> (r: &'static str)
        ensures
            r@ == (match self {
                ControllerButtonEventKind::Down => "keydown"@,
                ControllerButtonEventKind::Up => "keyup"@,
            }),
    {
        match self {
            ControllerButtonEventKind::Down => "keydown",
            ControllerButtonEventKind::Up => "keyup",
        }
    }
}

/// A button edge of one device.
#[derive(Debug, Clone)]
pub struct ControllerButtonEvent {
    pub device_id: String,
    pub button: String,
    pub kind: ControllerButtonEventKind,
}

/// A changed analog value of one device, after preprocessing.
#[derive(Debug, Clone)]
pub struct ControllerAnalogEvent {
    pub device_id: String,
    pub control: String,
    pub value: i32,
}

/// What a controller reports at one instant: the set of pressed buttons and
/// the raw analog values by control name.
#[derive(Debug)]
pub struct ControllerSnapshot {
    pressed_buttons: Vec<String>,
    analog_values: Vec<(String, i32)>,
}

/// The events one snapshot produced, button edges and analog changes.
#[derive(Debug)]
pub struct ControllerEvents {
    pub button_events: Vec<ControllerButtonEvent>,
    pub analog_events: Vec<ControllerAnalogEvent>,
}

/// The last seen pressed buttons and processed analog values of one device.
#[derive(Debug)]
pub struct ControllerState {
    pressed_buttons: Vec<String>,
    analog_values: Vec<(String, i32)>,
}

/// How an analog control's raw value is cleaned up.
#[derive(Debug, Clone, Copy, PartialEq, Eq, Structural)]
pub enum AnalogControlKind {
    Stick,
    Trigger,
    Other,
}

// ---------------------------------------------------------------------------
// Analog preprocessing

pub open spec fn spec_control_kind(control: Seq<char>) -> AnalogControlKind {
    if control == "axis_left_x"@ || control == "axis_left_y"@ || control == "axis_right_x"@
        || control == "axis_right_y"@ {
        AnalogControlKind::Stick
    } else if control == "trigger_left"@ || control == "trigger_right"@ {
        AnalogControlKind::Trigger
    } else {
        AnalogControlKind::Other
    }
}

pub open spec fn abs_int(x: int) -> int {
    if x < 0 { -x } else { x }
}

/// Stick values near the centre snap to the centre; small trigger values snap to zero.
pub open spec fn spec_apply_deadzone(control: Seq<char>, raw: i32) -> i32 {
    match spec_control_kind(control) {
        AnalogControlKind::Stick => if abs_int(raw - STICK_CENTER_VALUE) <= STICK_DEADZONE_THRESHOLD {
            STICK_CENTER_VALUE
        } else {
            raw
        },
        AnalogControlKind::Trigger => if raw <= TRIGGER_DEADZONE_THRESHOLD {
            ANALOG_MIN_VALUE
        } else {
            raw
        },
        AnalogControlKind::Other => raw,
    }
}

/// Clamp to `0..=255`, keep `255`, otherwise round down to a multiple of the bin size.
pub open spec fn spec_quantize(value: i32) -> i32 {
    let clamped: i32 = if value < ANALOG_MIN_VALUE {
        ANALOG_MIN_VALUE
    } else if value > ANALOG_MAX_VALUE {
        ANALOG_MAX_VALUE
    } else {
        value
    };
    if clamped == ANALOG_MAX_VALUE {
        ANALOG_MAX_VALUE
    } else {
        ((clamped / ANALOG_QUANTIZATION_BIN_SIZE) * ANALOG_QUANTIZATION_BIN_SIZE) as i32
    }
}

pub open spec fn spec_preprocess(control: Seq<char>, raw: i32) -> i32 {
    spec_quantize(spec_apply_deadzone(control, raw))
}

impl AnalogControlKind {
    /// The kind of a control, by its name.
    pub fn from_control(control: &str) -> (k: Self)
        ensures
            k == spec_control_kind(control@),
    {
        if str_eq(control, "axis_left_x") || str_eq(control, "axis_left_y") || str_eq(
            control,
            "axis_right_x",
        ) || str_eq(control, "axis_right_y") {
            AnalogControlKind::Stick
        } else if str_eq(control, "trigger_left") || str_eq(control, "trigger_right") {
            AnalogControlKind::Trigger
        } else {
            AnalogControlKind::Other
        }
    }
}

/// Applies the dead zone of the control's kind.
pub fn apply_deadzone(control: &str, raw_value: i32) -> (r: i32)
    ensures
        r == spec_apply_deadzone(control@, raw_value),
{
    match AnalogControlKind::from_control(control) {
        AnalogControlKind::Stick => {
            let distance: i64 = raw_value as i64 - STICK_CENTER_VALUE as i64;
            let magnitude: i64 = if distance < 0 { -distance } else { distance };
            if magnitude <= STICK_DEADZONE_THRESHOLD as i64 {
                STICK_CENTER_VALUE
            } else {
                raw_value
            }
        },
        AnalogControlKind::Trigger => {
            if raw_value <= TRIGGER_DEADZONE_THRESHOLD {
                ANALOG_MIN_VALUE
            } else {
                raw_value
            }
        },
        AnalogControlKind::Other => raw_value,
    }
}

/// Quantizes an analog value into one of 32 bins (and `255`).
pub fn quantize_analog_value(value: i32) -> (r: i32)
    ensures
        r == spec_quantize(value),
        0 <= r <= 255,
        r == 255 || r % 8 == 0,
{
    let clamped = if value < ANALOG_MIN_VALUE {
        ANALOG_MIN_VALUE
    } else if value > ANALOG_MAX_VALUE {
        ANALOG_MAX_VALUE
    } else {
        value
    };
    if clamped == ANALOG_MAX_VALUE {
        return ANALOG_MAX_VALUE;
    }
    (clamped / ANALOG_QUANTIZATION_BIN_SIZE) * ANALOG_QUANTIZATION_BIN_SIZE
}

/// Dead zone, then quantization.
pub fn preprocess_analog_value(control: &str, raw_value: i32) -> (r: i32)
    ensures
        r == spec_preprocess(control@, raw_value),
{
    quantize_analog_value(apply_deadzone(control, raw_value))
}

// ---------------------------------------------------------------------------
// Analog value tables

/// The analog entries with their names as character sequences.
pub open spec fn entry_views(s: Seq<(String, i32)>) -> Seq<(Seq<char>, i32)> {
    s.map_values(|e: (String, i32)| (e.0@, e.1))
}

/// The table that inserting the entries in order gives (a later entry wins).
pub open spec fn entries_map(s: Seq<(Seq<char>, i32)>) -> Map<Seq<char>, i32>
    decreases s.len(),
{
    if s.len() == 0 {
        Map::empty()
    } else {
        entries_map(s.drop_last()).insert(s.last().0, s.last().1)
    }
}

/// No control name occurs twice.
pub open spec fn distinct_controls(s: Seq<(Seq<char>, i32)>) -> bool {
    forall|i: int, j: int| 0 <= i < j < s.len() ==> s[i].0 != s[j].0
}

/// Each entry with its value preprocessed.
pub open spec fn processed_entries(s: Seq<(Seq<char>, i32)>) -> Seq<(Seq<char>, i32)> {
    s.map_values(|e: (Seq<char>, i32)| (e.0, spec_preprocess(e.0, e.1)))
}

/// The entries whose processed value differs from the one in `old`, in order,
/// each with its processed value.
pub open spec fn analog_changes(old: Map<Seq<char>, i32>, s: Seq<(Seq<char>, i32)>) -> Seq<
    (Seq<char>, i32),
>
    decreases s.len(),
{
    if s.len() == 0 {
        Seq::empty()
    } else {
        let rest = analog_changes(old, s.drop_last());
        let c = s.last().0;
        let p = spec_preprocess(c, s.last().1);
        if old.contains_key(c) && old[c] == p {
            rest
        } else {
            rest.push((c, p))
        }
    }
}

/// The names of `s` that are not in `other`, in order.
pub open spec fn names_not_in(s: Seq<Seq<char>>, other: Set<Seq<char>>) -> Seq<Seq<char>>
    decreases s.len(),
{
    if s.len() == 0 {
        Seq::empty()
    } else {
        let rest = names_not_in(s.drop_last(), other);
        if other.contains(s.last()) {
            rest
        } else {
            rest.push(s.last())
        }
    }
}

/// `ev` holds, for `device`, a `Down` event for each name of `downs` and then
/// an `Up` event for each name of `ups`, in order.
pub open spec fn button_events_are(
    ev: Seq<ControllerButtonEvent>,
    device: Seq<char>,
    downs: Seq<Seq<char>>,
    ups: Seq<Seq<char>>,
) -> bool {
    &&& ev.len() == downs.len() + ups.len()
    &&& forall|i: int| 0 <= i < ev.len() ==> (#[trigger] ev[i]).device_id@ == device
    &&& forall|i: int|
        0 <= i < downs.len() ==> (#[trigger] ev[i]).button@ == downs[i] && ev[i].kind
            == ControllerButtonEventKind::Down
    &&& forall|i: int|
        downs.len() <= i < ev.len() ==> (#[trigger] ev[i]).button@ == ups[i - downs.len()]
            && ev[i].kind == ControllerButtonEventKind::Up
}

/// `ev` holds, for `device`, one event per change, in order.
pub open spec fn analog_events_are(
    ev: Seq<ControllerAnalogEvent>,
    device: Seq<char>,
    changes: Seq<(Seq<char>, i32)>,
) -> bool {
    &&& ev.len() == changes.len()
    &&& forall|i: int|
        0 <= i < ev.len() ==> (#[trigger] ev[i]).device_id@ == device && ev[i].control@
            == changes[i].0 && ev[i].value == changes[i].1
}

pub proof fn lemma_entries_map_distinct(s: Seq<(Seq<char>, i32)>, i: int)
    requires
        distinct_controls(s),
        0 <= i < s.len(),
    ensures
        entries_map(s).contains_key(s[i].0),
        entries_map(s)[s[i].0] == s[i].1,
    decreases s.len(),
{
    if i < s.len() - 1 {
        lemma_entries_map_distinct(s.drop_last(), i);
    }
}

pub proof fn lemma_entries_map_keys(s: Seq<(Seq<char>, i32)>, k: Seq<char>)
    ensures
        entries_map(s).contains_key(k) <==> exists|i: int| 0 <= i < s.len() && s[i].0 == k,
    decreases s.len(),
{
    if s.len() > 0 {
        lemma_entries_map_keys(s.drop_last(), k);
        if entries_map(s).contains_key(k) && s.last().0 != k {
            let i = choose|i: int| 0 <= i < s.len() - 1 && s.drop_last()[i].0 == k;
            assert(s[i].0 == k);
        }
        if exists|i: int| 0 <= i < s.len() && s[i].0 == k {
            let i = choose|i: int| 0 <= i < s.len() && s[i].0 == k;
            if i < s.len() - 1 {
                assert(s.drop_last()[i].0 == k);
            }
        }
    }
}

/// Finds the value stored for `control` in a table without repeated names.
fn lookup_value(table: &Vec<(String, i32)>, control: &str) -> (r: Option<i32>)
    requires
        distinct_controls(entry_views(table@)),
    ensures
        r == (if entries_map(entry_views(table@)).contains_key(control@) {
            Some(entries_map(entry_views(table@))[control@])
        } else {
            None::<i32>
        }),
{
    let ghost views = entry_views(table@);
    let mut i: usize = 0;
    while i < table.len()
        invariant
            views == entry_views(table@),
            distinct_controls(views),
            i <= table.len(),
            forall|j: int| 0 <= j < i ==> views[j].0 != control@,
        decreases table.len() - i,
    {
        if str_eq(table[i].0.as_str(), control) {
            proof {
                lemma_entries_map_distinct(views, i as int);
            }
            return Some(table[i].1);
        }
        i = i + 1;
    }
    proof {
        lemma_entries_map_keys(views, control@);
    }
    None
}

/// Sets the value of `control`, replacing an existing entry or adding one.
fn store_value(table: &mut Vec<(String, i32)>, control: String, value: i32)
    requires
        distinct_controls(entry_views(old(table)@)),
    ensures
        distinct_controls(entry_views(final(table)@)),
        entries_map(entry_views(final(table)@)) == entries_map(entry_views(old(table)@)).insert(
            control@,
            value,
        ),
{
    let ghost views = entry_views(table@);
    let mut i: usize = 0;
    while i < table.len()
        invariant
            table@ == old(table)@,
            views == entry_views(table@),
            distinct_controls(views),
            i <= table.len(),
            forall|j: int| 0 <= j < i ==> views[j].0 != control@,
        decreases table.len() - i,
    {
        if str_eq(table[i].0.as_str(), control.as_str()) {
            let ghost idx = i as int;
            proof {
                assert(views[idx].0 == control@);
            }
            table.set(i, (control, value));
            proof {
                let nv = entry_views(table@);
                assert(nv =~= views.update(idx, (control@, value)));
                assert(distinct_controls(nv)) by {
                    assert forall|a: int, b: int| 0 <= a < b < nv.len() implies nv[a].0 != nv[b].0 by {
                        if a != idx && b != idx {
                            assert(nv[a] == views[a] && nv[b] == views[b]);
                        } else if a == idx {
                            assert(nv[b] == views[b]);
                        } else {
                            assert(nv[a] == views[a]);
                        }
                    }
                }
                let m_new = entries_map(nv);
                let m_old = entries_map(views).insert(control@, value);
                assert forall|k: Seq<char>| #[trigger] m_new.contains_key(k) == m_old.contains_key(k) by {
                    lemma_entries_map_keys(nv, k);
                    lemma_entries_map_keys(views, k);
                    if k == control@ {
                        assert(nv[idx].0 == k);
                    }
                    if m_old.contains_key(k) && k != control@ {
                        let j = choose|j: int| 0 <= j < views.len() && views[j].0 == k;
                        assert(nv[j].0 == k);
                    }
                    if m_new.contains_key(k) {
                        let j = choose|j: int| 0 <= j < nv.len() && nv[j].0 == k;
                        if j != idx {
                            assert(views[j].0 == k);
                        }
                    }
                }
                assert forall|k: Seq<char>| m_new.contains_key(k) implies #[trigger] m_new[k] == m_old[k] by {
                    lemma_entries_map_keys(nv, k);
                    let j = choose|j: int| 0 <= j < nv.len() && nv[j].0 == k;
                    lemma_entries_map_distinct(nv, j);
                    if j != idx {
                        assert(views[j] == nv[j]);
                        lemma_entries_map_distinct(views, j);
                    }
                }
                assert(m_new =~= m_old);
            }
            return;
        }
        i = i + 1;
    }
    let ghost c = control@;
    table.push((control, value));
    proof {
        let nv = entry_views(table@);
        assert(nv =~= views.push((c, value)));
        assert(nv.drop_last() =~= views);
        assert(distinct_controls(nv)) by {
            assert forall|a: int, b: int| 0 <= a < b < nv.len() implies nv[a].0 != nv[b].0 by {
                if b < views.len() {
                    assert(nv[a] == views[a] && nv[b] == views[b]);
                } else {
                    assert(nv[a] == views[a]);
                }
            }
        }
    }
}

// ---------------------------------------------------------------------------
// Snapshots

impl ControllerSnapshot {
    #[verifier::type_invariant]
    spec fn wf(self) -> bool {
        strictly_ascending(names_of(self.pressed_buttons@))
    }

    /// The pressed button names, in ascending order.
    pub closed spec fn pressed_names(&self) -> Seq<Seq<char>> {
        names_of(self.pressed_buttons@)
    }

    /// The analog entries, in the order they were given.
    pub closed spec fn analog_entries(&self) -> Seq<(Seq<char>, i32)> {
        entry_views(self.analog_values@)
    }

    /// A snapshot of the given pressed buttons (in any order, repeats allowed)
    /// and analog values.
    pub fn new(pressed_buttons: Vec<String>, analog_values: Vec<(String, i32)>) -> (s: Self)
        ensures
            name_set(s.pressed_names()) == name_set(names_of(pressed_buttons@)),
            s.analog_entries() == entry_views(analog_values@),
    {
        let mut set: Vec<String> = Vec::new();
        let mut i: usize = 0;
        proof {
            assert(name_set(names_of(set@)) =~= name_set(names_of(pressed_buttons@).take(0)));
        }
        while i < pressed_buttons.len()
            invariant
                i <= pressed_buttons.len(),
                strictly_ascending(names_of(set@)),
                name_set(names_of(set@)) == name_set(names_of(pressed_buttons@).take(i as int)),
            decreases pressed_buttons.len() - i,
        {
            insert_name(&mut set, pressed_buttons[i].clone());
            proof {
                let all = names_of(pressed_buttons@);
                assert(all.take(i + 1) =~= all.take(i as int).push(all[i as int]));
                broadcast use vstd::seq_lib::group_seq_properties;
                assert(all.take(i as int).push(all[i as int]).to_set() =~= all.take(i as int).to_set().insert(all[i as int]));
            }
            i = i + 1;
        }
        proof {
            assert(names_of(pressed_buttons@).take(i as int) =~= names_of(pressed_buttons@));
        }
        ControllerSnapshot { pressed_buttons: set, analog_values }
    }

    /// A copy of this snapshot.
    pub fn duplicate(&self) -> (r: Self)
        ensures
            r.pressed_names() == self.pressed_names(),
            r.analog_entries() == self.analog_entries(),
    {
        proof {
            use_type_invariant(self);
        }
        let mut buttons: Vec<String> = Vec::new();
        let mut i: usize = 0;
        while i < self.pressed_buttons.len()
            invariant
                i <= self.pressed_buttons.len(),
                buttons@ == self.pressed_buttons@.take(i as int),
            decreases self.pressed_buttons.len() - i,
        {
            buttons.push(self.pressed_buttons[i].clone());
            proof {
                assert(self.pressed_buttons@.take(i + 1) =~= self.pressed_buttons@.take(i as int).push(self.pressed_buttons@[i as int]));
            }
            i = i + 1;
        }
        let mut analog: Vec<(String, i32)> = Vec::new();
        let mut j: usize = 0;
        while j < self.analog_values.len()
            invariant
                j <= self.analog_values.len(),
                entry_views(analog@) == entry_views(self.analog_values@.take(j as int)),
            decreases self.analog_values.len() - j,
        {
            let entry = (self.analog_values[j].0.clone(), self.analog_values[j].1);
            let ghost before = analog@;
            analog.push(entry);
            proof {
                let src = self.analog_values@;
                assert(src.take(j + 1) =~= src.take(j as int).push(src[j as int]));
                assert(analog@ =~= before.push(entry));
                assert(entry_views(analog@) =~= entry_views(before).push((entry.0@, entry.1)));
                assert(entry_views(src.take(j + 1)) =~= entry_views(src.take(j as int)).push((src[j as int].0@, src[j as int].1)));
            }
            j = j + 1;
        }
        proof {
            assert(self.pressed_buttons@.take(i as int) =~= self.pressed_buttons@);
            assert(self.analog_values@.take(j as int) =~= self.analog_values@);
        }
        ControllerSnapshot { pressed_buttons: buttons, analog_values: analog }
    }

    /// A snapshot from an already ascending set of names.
    pub fn from_ascending(pressed_buttons: Vec<String>, analog_values: Vec<(String, i32)>) -> (s:
        Self)
        requires
            strictly_ascending(names_of(pressed_buttons@)),
        ensures
            s.pressed_names() == names_of(pressed_buttons@),
            s.analog_entries() == entry_views(analog_values@),
    {
        ControllerSnapshot { pressed_buttons, analog_values }
    }

    /// The pressed button names, in ascending order.
    pub fn pressed_buttons(&self) -> (r: &Vec<String>)
        ensures
            names_of(r@) == self.pressed_names(),
            strictly_ascending(self.pressed_names()),
    {
        proof {
            use_type_invariant(self);
        }
        &self.pressed_buttons
    }

    /// The analog values, in the order they were given.
    pub fn analog_values(&self) -> (r: &Vec<(String, i32)>)
        ensures
            entry_views(r@) == self.analog_entries(),
    {
        &self.analog_values
    }

    /// Whether `button` is pressed in this snapshot.
    pub fn is_pressed(&self, button: &str) -> (r: bool)
        ensures
            r == self.pressed_names().contains(button@),
    {
        contains_name(&self.pressed_buttons, button)
    }

    /// Whether the snapshot holds the analog entry `(control, value)`.
    pub fn has_analog_value(&self, control: &str, value: i32) -> (r: bool)
        ensures
            r == self.analog_entries().contains((control@, value)),
    {
        let ghost views = entry_views(self.analog_values@);
        let mut i: usize = 0;
        while i < self.analog_values.len()
            invariant
                views == entry_views(self.analog_values@),
                i <= self.analog_values.len(),
                forall|j: int| 0 <= j < i ==> views[j] != (control@, value),
            decreases self.analog_values.len() - i,
        {
            if str_eq(self.analog_values[i].0.as_str(), control) && self.analog_values[i].1
                == value {
                proof {
                    assert(views[i as int] == (control@, value));
                }
                return true;
            }
            i = i + 1;
        }
        false
    }
}

// ---------------------------------------------------------------------------
// State and its diff

impl ControllerState {
    #[verifier::type_invariant]
    spec fn wf(self) -> bool {
        &&& strictly_ascending(names_of(self.pressed_buttons@))
        &&& distinct_controls(entry_views(self.analog_values@))
    }

    /// The pressed buttons, in ascending order.
    pub closed spec fn pressed_names(&self) -> Seq<Seq<char>> {
        names_of(self.pressed_buttons@)
    }

    /// The pressed buttons as a set.
    pub open spec fn pressed_set(&self) -> Set<Seq<char>> {
        name_set(self.pressed_names())
    }

    /// The last processed value of each analog control.
    pub closed spec fn analog_map(&self) -> Map<Seq<char>, i32> {
        entries_map(entry_views(self.analog_values@))
    }

    /// A state with no button pressed and no analog value seen.
    pub fn new() -> (s: Self)
        ensures
            s.pressed_names() == Seq::<Seq<char>>::empty(),
            s.analog_map() == Map::<Seq<char>, i32>::empty(),
    {
        let s = ControllerState { pressed_buttons: Vec::new(), analog_values: Vec::new() };
        proof {
            assert(entry_views(s.analog_values@) =~= Seq::<(Seq<char>, i32)>::empty());
        }
        s
    }

    /// Compares a new snapshot with the state, returns the events, and makes the
    /// snapshot the new state.
    ///
    /// Button events are first a `Down` for every newly pressed button, then an
    /// `Up` for every released one, each group in ascending name order. Analog
    /// events follow the snapshot's order, one for every entry whose processed
    /// value differs from the stored one (or that has none stored).
    pub fn diff(&mut self, device_id: &str, snapshot: ControllerSnapshot) -> (events:
        ControllerEvents)
        ensures
            button_events_are(
                events.button_events@,
                device_id@,
                names_not_in(snapshot.pressed_names(), old(self).pressed_set()),
                names_not_in(old(self).pressed_names(), name_set(snapshot.pressed_names())),
            ),
            analog_events_are(
                events.analog_events@,
                device_id@,
                analog_changes(old(self).analog_map(), snapshot.analog_entries()),
            ),
            final(self).pressed_names() == snapshot.pressed_names(),
            strictly_ascending(snapshot.pressed_names()),
            strictly_ascending(old(self).pressed_names()),
            final(self).analog_map() == entries_map(processed_entries(snapshot.analog_entries())),
    {
        proof {
            use_type_invariant(&*self);
            use_type_invariant(&snapshot);
        }
        let ghost old_names = names_of(self.pressed_buttons@);
        let ghost new_names = names_of(snapshot.pressed_buttons@);
        let ghost old_set = name_set(old_names);
        let ghost new_set = name_set(new_names);
        let mut button_events: Vec<ControllerButtonEvent> = Vec::new();

        let mut i: usize = 0;
        while i < snapshot.pressed_buttons.len()
            invariant
                new_names == names_of(snapshot.pressed_buttons@),
                old_names == names_of(self.pressed_buttons@),
                old_set == name_set(old_names),
                i <= snapshot.pressed_buttons.len(),
                button_events_are(
                    button_events@,
                    device_id@,
                    names_not_in(new_names.take(i as int), old_set),
                    Seq::empty(),
                ),
            decreases snapshot.pressed_buttons.len() - i,
        {
            proof {
                assert(new_names.take(i + 1).drop_last() =~= new_names.take(i as int));
            }
            if !contains_name(&self.pressed_buttons, snapshot.pressed_buttons[i].as_str()) {
                button_events.push(
                    ControllerButtonEvent {
                        device_id: string_of(device_id),
                        button: snapshot.pressed_buttons[i].clone(),
                        kind: ControllerButtonEventKind::Down,
                    },
                );
            }
            i = i + 1;
        }
        proof {
            assert(new_names.take(i as int) =~= new_names);
        }
        let ghost downs = names_not_in(new_names, old_set);

        let mut j: usize = 0;
        while j < self.pressed_buttons.len()
            invariant
                new_names == names_of(snapshot.pressed_buttons@),
                old_names == names_of(self.pressed_buttons@),
                new_set == name_set(new_names),
                downs == names_not_in(new_names, old_set),
                j <= self.pressed_buttons.len(),
                button_events_are(
                    button_events@,
                    device_id@,
                    downs,
                    names_not_in(old_names.take(j as int), new_set),
                ),
            decreases self.pressed_buttons.len() - j,
        {
            proof {
                assert(old_names.take(j + 1).drop_last() =~= old_names.take(j as int));
            }
            if !contains_name(&snapshot.pressed_buttons, self.pressed_buttons[j].as_str()) {
                button_events.push(
                    ControllerButtonEvent {
                        device_id: string_of(device_id),
                        button: self.pressed_buttons[j].clone(),
                        kind: ControllerButtonEventKind::Up,
                    },
                );
            }
            j = j + 1;
        }
        proof {
            assert(old_names.take(j as int) =~= old_names);
        }

        let ghost old_map = entries_map(entry_views(self.analog_values@));
        let ghost entries = entry_views(snapshot.analog_values@);
        let mut analog_events: Vec<ControllerAnalogEvent> = Vec::new();
        let mut next_values: Vec<(String, i32)> = Vec::new();
        let mut k: usize = 0;
        proof {
            assert(entry_views(next_values@) =~= processed_entries(entries.take(0)));
        }
        while k < snapshot.analog_values.len()
            invariant
                entries == entry_views(snapshot.analog_values@),
                old_map == entries_map(entry_views(self.analog_values@)),
                distinct_controls(entry_views(self.analog_values@)),
                k <= snapshot.analog_values.len(),
                analog_events_are(
                    analog_events@,
                    device_id@,
                    analog_changes(old_map, entries.take(k as int)),
                ),
                distinct_controls(entry_views(next_values@)),
                entries_map(entry_views(next_values@)) == entries_map(
                    processed_entries(entries.take(k as int)),
                ),
            decreases snapshot.analog_values.len() - k,
        {
            let control = &snapshot.analog_values[k].0;
            let raw_value = snapshot.analog_values[k].1;
            let processed = preprocess_analog_value(control.as_str(), raw_value);
            proof {
                assert(entries.take(k + 1).drop_last() =~= entries.take(k as int));
                assert(entries[k as int] == (control@, raw_value));
                assert(processed_entries(entries.take(k + 1)) =~= processed_entries(
                    entries.take(k as int),
                ).push((control@, processed)));
                assert(processed_entries(entries.take(k + 1)).drop_last() =~= processed_entries(
                    entries.take(k as int),
                ));
            }
            let previous = lookup_value(&self.analog_values, control.as_str());
            let unchanged = match previous {
                Some(value) => value == processed,
                None => false,
            };
            if !unchanged {
                analog_events.push(
                    ControllerAnalogEvent {
                        device_id: string_of(device_id),
                        control: control.clone(),
                        value: processed,
                    },
                );
            }
            store_value(&mut next_values, control.clone(), processed);
            k = k + 1;
        }
        proof {
            assert(entries.take(k as int) =~= entries);
        }

        self.pressed_buttons = snapshot.pressed_buttons;
        self.analog_values = next_values;
        ControllerEvents { button_events, analog_events }
    }
}

// ---------------------------------------------------------------------------
// Laws

proof fn lemma_names_not_in_covered(s: Seq<Seq<char>>, other: Set<Seq<char>>)
    requires
        forall|i: int| 0 <= i < s.len() ==> other.contains(#[trigger] s[i]),
    ensures
        names_not_in(s, other) == Seq::<Seq<char>>::empty(),
    decreases s.len(),
{
    if s.len() > 0 {
        assert(other.contains(s[s.len() - 1]));
        lemma_names_not_in_covered(s.drop_last(), other);
    }
}

proof fn lemma_changes_none(old: Map<Seq<char>, i32>, s: Seq<(Seq<char>, i32)>)
    requires
        forall|i: int|
            0 <= i < s.len() ==> old.contains_key((#[trigger] s[i]).0) && old[s[i].0]
                == spec_preprocess(s[i].0, s[i].1),
    ensures
        analog_changes(old, s) == Seq::<(Seq<char>, i32)>::empty(),
    decreases s.len(),
{
    if s.len() > 0 {
        let l = s[s.len() - 1];
        lemma_changes_none(old, s.drop_last());
    }
}

/// Feeding a state the snapshot it already holds produces no events: no
/// button edges, and no analog event as long as the snapshot names each
/// control once.
pub proof fn law_repeated_snapshot_is_quiet(names: Seq<Seq<char>>, entries: Seq<(Seq<char>, i32)>)
    requires
        distinct_controls(entries),
    ensures
        names_not_in(names, name_set(names)) == Seq::<Seq<char>>::empty(),
        analog_changes(entries_map(processed_entries(entries)), entries) == Seq::<
            (Seq<char>, i32),
        >::empty(),
{
    assert forall|i: int| 0 <= i < names.len() implies name_set(names).contains(#[trigger] names[i]) by {
        assert(names.contains(names[i]));
    }
    lemma_names_not_in_covered(names, name_set(names));
    let p = processed_entries(entries);
    assert(distinct_controls(p));
    assert forall|i: int|
        0 <= i < entries.len() implies entries_map(p).contains_key((#[trigger] entries[i]).0)
            && entries_map(p)[entries[i].0] == spec_preprocess(entries[i].0, entries[i].1) by {
        lemma_entries_map_distinct(p, i);
    }
    lemma_changes_none(entries_map(p), entries);
}

/// The names reported as newly pressed (or as released) are exactly those
/// in one set and not in the other.
pub proof fn law_button_edges_are_set_difference(s: Seq<Seq<char>>, other: Set<Seq<char>>)
    ensures
        name_set(names_not_in(s, other)) == name_set(s).difference(other),
    decreases s.len(),
{
    if s.len() == 0 {
        assert(name_set(names_not_in(s, other)) =~= name_set(s).difference(other));
    } else {
        law_button_edges_are_set_difference(s.drop_last(), other);
        let l = s.last();
        assert(s =~= s.drop_last().push(l));
        broadcast use vstd::seq_lib::group_seq_properties;
        assert(name_set(s) =~= name_set(s.drop_last()).insert(l));
        if other.contains(l) {
            assert(name_set(names_not_in(s, other)) =~= name_set(s).difference(other));
        } else {
            let r = names_not_in(s.drop_last(), other);
            assert(name_set(r.push(l)) =~= name_set(r).insert(l));
            assert(name_set(names_not_in(s, other)) =~= name_set(s).difference(other));
        }
    }
}

/// Every processed analog value lies in `0..=255` and is a bin boundary or `255`.
pub proof fn law_processed_values_are_bins(control: Seq<char>, raw: i32)
    ensures
        0 <= spec_preprocess(control, raw) <= 255,
        spec_preprocess(control, raw) == 255 || spec_preprocess(control, raw) % 8 == 0,
{
}

/// Stick values within the dead zone read as the centre; trigger values at or
/// below the threshold read as zero.
pub proof fn law_deadzones_snap(control: Seq<char>, raw: i32)
    ensures
        spec_control_kind(control) == AnalogControlKind::Stick && 112 <= raw <= 144
            ==> spec_preprocess(control, raw) == 128,
        spec_control_kind(control) == AnalogControlKind::Trigger && raw <= 30
            ==> spec_preprocess(control, raw) == 0,
{
}

/// The four stick axes have the stick dead zone: a raw value within 16 of
/// the centre reads as the centre 128, and a value outside it keeps its bin.
/// The two triggers have the trigger dead zone: up to 30 reads as 0.
pub proof fn law_named_controls_have_their_dead_zones(raw: i32)
    ensures
        112 <= raw <= 144 ==> spec_preprocess("axis_left_x"@, raw) == 128
            && spec_preprocess("axis_left_y"@, raw) == 128
            && spec_preprocess("axis_right_x"@, raw) == 128
            && spec_preprocess("axis_right_y"@, raw) == 128,
        0 <= raw < 112 || 144 < raw <= 254 ==> spec_preprocess("axis_left_x"@, raw) == raw / 8 * 8
            && spec_preprocess("axis_left_y"@, raw) == raw / 8 * 8
            && spec_preprocess("axis_right_x"@, raw) == raw / 8 * 8
            && spec_preprocess("axis_right_y"@, raw) == raw / 8 * 8,
        raw <= 30 ==> spec_preprocess("trigger_left"@, raw) == 0
            && spec_preprocess("trigger_right"@, raw) == 0,
        30 < raw <= 254 ==> spec_preprocess("trigger_left"@, raw) == raw / 8 * 8
            && spec_preprocess("trigger_right"@, raw) == raw / 8 * 8,
{
    reveal_strlit("axis_left_x");
    reveal_strlit("axis_left_y");
    reveal_strlit("axis_right_x");
    reveal_strlit("axis_right_y");
    reveal_strlit("trigger_left");
    reveal_strlit("trigger_right");
    assert("trigger_left"@[0] != "axis_left_x"@[0]);
    assert("trigger_right"@[0] != "axis_left_x"@[0]);
    assert("trigger_left"@ != "axis_left_x"@ && "trigger_left"@ != "axis_left_y"@
        && "trigger_left"@ != "axis_right_x"@ && "trigger_left"@ != "axis_right_y"@);
    assert("trigger_right"@ != "axis_left_x"@ && "trigger_right"@ != "axis_left_y"@
        && "trigger_right"@ != "axis_right_x"@ && "trigger_right"@ != "axis_right_y"@);
}

/// A raw HID input report and the handle of the device that sent it.
#[derive(Debug, Clone)]
pub struct RawControllerReport {
    pub device_handle: isize,
    pub report: Vec<u8>,
}

} // verus!
