//! What the controller logging worker does with each raw report: name the
//! device, decode the report, and diff it against that device's last state.
use vstd::prelude::*;
use super::device_registry::{DeviceRegistry, law_device_ids_are_distinct, spec_device_id};
use super::hid_mapper::{
    HidMapper, report_analog_entries, report_buttons, spec_analog_name, spec_layout,
};
use super::model::{
    ControllerEvents, ControllerState, RawControllerReport, analog_changes, analog_events_are,
    button_events_are, distinct_controls, entries_map, names_not_in, processed_entries,
    law_button_edges_are_set_difference, law_repeated_snapshot_is_quiet,
};
use crate::name_set::{name_set, name_lt, names_of, strictly_ascending};
use crate::text::str_eq;

verus! {

/// The pressed names (ascending) and processed analog values of a device.
pub type DeviceStateView = (Seq<Seq<char>>, Map<Seq<char>, i32>);

/// The state a device starts from: nothing pressed, no analog value seen.
pub open spec fn fresh_state() -> DeviceStateView {
    (Seq::empty(), Map::empty())
}

/// Per-device controller state for one logging session.
pub struct ControllerLogger {
    registry: DeviceRegistry,
    mapper: HidMapper,
    ids: Vec<String>,
    states: Vec<ControllerState>,
}

pub open spec fn state_view(s: ControllerState) -> DeviceStateView {
    (s.pressed_names(), s.analog_map())
}

/// No name occurs twice.
pub open spec fn distinct_names(s: Seq<Seq<char>>) -> bool {
    forall|i: int, j: int| 0 <= i < j < s.len() ==> s[i] != s[j]
}

/// The table from ids to states that two parallel sequences describe.
pub open spec fn states_map(ids: Seq<Seq<char>>, states: Seq<ControllerState>) -> Map<
    Seq<char>,
    DeviceStateView,
> {
    Map::new(
        |k: Seq<char>| exists|i: int| 0 <= i < ids.len() && ids[i] == k,
        |k: Seq<char>| state_view(states[choose|i: int| 0 <= i < ids.len() && ids[i] == k]),
    )
}

/// The state kept for a device before a report, or a fresh one.
pub open spec fn state_or_fresh(m: Map<Seq<char>, DeviceStateView>, id: Seq<char>) -> DeviceStateView {
    if m.contains_key(id) { m[id] } else { fresh_state() }
}

proof fn lemma_names_not_in_sub(s: Seq<Seq<char>>, other: Set<Seq<char>>, x: Seq<char>)
    requires
        names_not_in(s, other).contains(x),
    ensures
        s.contains(x),
    decreases s.len(),
{
    if s.len() > 0 {
        let rest = names_not_in(s.drop_last(), other);
        if rest.contains(x) {
            lemma_names_not_in_sub(s.drop_last(), other, x);
            let k = choose|k: int| 0 <= k < s.drop_last().len() && s.drop_last()[k] == x;
            assert(s[k] == x);
        } else {
            assert(x == s.last());
            assert(s[s.len() - 1] == x);
        }
    }
}

/// Keeping only some names of an ascending sequence keeps it ascending.
pub proof fn lemma_names_not_in_ascending(s: Seq<Seq<char>>, other: Set<Seq<char>>)
    requires
        strictly_ascending(s),
    ensures
        strictly_ascending(names_not_in(s, other)),
    decreases s.len(),
{
    if s.len() > 0 {
        let d = s.drop_last();
        assert(strictly_ascending(d));
        lemma_names_not_in_ascending(d, other);
        let rest = names_not_in(d, other);
        if !other.contains(s.last()) {
            let r = rest.push(s.last());
            assert forall|a: int, b: int| 0 <= a < b < r.len() implies name_lt(r[a], r[b]) by {
                if b == r.len() - 1 {
                    assert(rest.contains(r[a]));
                    lemma_names_not_in_sub(d, other, r[a]);
                    let k = choose|k: int| 0 <= k < d.len() && d[k] == r[a];
                    assert(s[k] == r[a]);
                }
            }
        }
    }
}

impl ControllerLogger {
    /// The ids are distinct and each has a state.
    pub closed spec fn wf(&self) -> bool {
        &&& self.ids.len() == self.states.len()
        &&& distinct_names(names_of(self.ids@))
    }

    /// The last state of each device seen while the target was in the foreground.
    pub closed spec fn device_states(&self) -> Map<Seq<char>, DeviceStateView> {
        states_map(names_of(self.ids@), self.states@)
    }

    /// A logger that has seen no report.
    pub fn new() -> (r: Self)
        ensures
            r.wf(),
            r.device_states() == Map::<Seq<char>, DeviceStateView>::empty(),
    {
        let r = ControllerLogger {
            registry: DeviceRegistry::new(),
            mapper: HidMapper::new(),
            ids: Vec::new(),
            states: Vec::new(),
        };
        proof {
            assert(r.device_states() =~= Map::<Seq<char>, DeviceStateView>::empty());
        }
        r
    }

    /// Handles one raw report. While the target is not in the foreground no
    /// event is produced and every device state is dropped. Otherwise a
    /// report of an unknown layout is skipped, and a decoded one is diffed
    /// against the state of its device (a fresh state for a new device),
    /// which it then replaces.
    pub fn handle_report(&mut self, report: &RawControllerReport, target_is_foreground: bool) -> (events:
        ControllerEvents)
        requires
            old(self).wf(),
        ensures
            final(self).wf(),
            !target_is_foreground ==> events.button_events@.len() == 0 && events.analog_events@.len()
                == 0 && final(self).device_states() == Map::<Seq<char>, DeviceStateView>::empty(),
            target_is_foreground && spec_layout(report.report@).is_none() ==> events.button_events@.len()
                == 0 && events.analog_events@.len() == 0 && final(self).device_states() == old(
                self,
            ).device_states(),
            target_is_foreground && spec_layout(report.report@).is_some() ==> ({
                let id = spec_device_id(report.device_handle);
                let layout = spec_layout(report.report@).unwrap();
                let pressed = report_buttons(report.report@, layout.button_offset as int);
                let entries = report_analog_entries(report.report@, layout.analog_offset as int);
                let prev = state_or_fresh(old(self).device_states(), id);
                let prev_set = name_set(prev.0);
                &&& exists|downs: Seq<Seq<char>>, ups: Seq<Seq<char>>, now: Seq<Seq<char>>| {
                    &&& strictly_ascending(downs) && name_set(downs) == pressed.difference(prev_set)
                    &&& strictly_ascending(ups) && name_set(ups) == prev_set.difference(pressed)
                    &&& button_events_are(events.button_events@, id, downs, ups)
                    &&& strictly_ascending(now) && name_set(now) == pressed
                    &&& final(self).device_states() == old(self).device_states().insert(
                        id,
                        (now, entries_map(processed_entries(entries))),
                    )
                }
                &&& analog_events_are(events.analog_events@, id, analog_changes(prev.1, entries))
            }),
    {
        if !target_is_foreground {
            self.ids = Vec::new();
            self.states = Vec::new();
            proof {
                assert(self.device_states() =~= Map::<Seq<char>, DeviceStateView>::empty());
            }
            return ControllerEvents { button_events: Vec::new(), analog_events: Vec::new() };
        }
        let device_id = self.registry.device_id(report.device_handle);
        let snapshot = match self.mapper.map_report(report.report.as_slice()) {
            Some(s) => s,
            None => {
                return ControllerEvents { button_events: Vec::new(), analog_events: Vec::new() };
            },
        };
        let ghost old_map = self.device_states();
        let ghost ids0 = names_of(self.ids@);
        let mut i: usize = 0;
        while i < self.ids.len()
            invariant
                ids0 == names_of(self.ids@),
                i <= self.ids.len(),
                forall|j: int| 0 <= j < i ==> ids0[j] != device_id@,
            ensures
                i <= self.ids.len(),
                forall|j: int| 0 <= j < i ==> ids0[j] != device_id@,
                i < self.ids.len() ==> ids0[i as int] == device_id@,
            decreases self.ids.len() - i,
        {
            if str_eq(self.ids[i].as_str(), device_id.as_str()) {
                break;
            }
            i = i + 1;
        }
        let found = i < self.ids.len();
        let mut state = if found {
            self.states.remove(i)
        } else {
            ControllerState::new()
        };
        let ghost prev = state_view(state);
        proof {
            if found {
                assert(ids0[i as int] == device_id@);
                assert(old_map.contains_key(device_id@));
                let c = choose|k: int| 0 <= k < ids0.len() && ids0[k] == device_id@;
                assert(c == i);
                assert(prev == old_map[device_id@]);
            } else {
                assert(!old_map.contains_key(device_id@));
                assert(prev.0 =~= fresh_state().0);
                assert(prev.1 =~= fresh_state().1);
            }
            assert(prev == state_or_fresh(old_map, device_id@));
        }
        let ghost snap_names = snapshot.pressed_names();
        let ghost snap_entries = snapshot.analog_entries();
        let events = state.diff(device_id.as_str(), snapshot);
        let ghost now = state_view(state);
        if found {
            self.states.insert(i, state);
        } else {
            self.ids.push(device_id);
            self.states.push(state);
        }
        proof {
            let ids1 = names_of(self.ids@);
            let new_map = self.device_states();
            let expect = old_map.insert(device_id@, now);
            if found {
                assert(ids1 =~= ids0);
                assert forall|k: Seq<char>| new_map.contains_key(k) == expect.contains_key(k) by {
                    if k == device_id@ {
                        assert(ids1[i as int] == k);
                    }
                }
                assert forall|k: Seq<char>| new_map.contains_key(k) implies new_map[k] == expect[k] by {
                    let c = choose|c: int| 0 <= c < ids1.len() && ids1[c] == k;
                    if c == i {
                        assert(self.states@[c] == state);
                    } else {
                        assert(self.states@[c] == old(self).states@[c]);
                    }
                }
            } else {
                assert(ids1 =~= ids0.push(device_id@));
                assert(distinct_names(ids1));
                assert forall|k: Seq<char>| new_map.contains_key(k) == expect.contains_key(k) by {
                    if k == device_id@ {
                        assert(ids1[ids0.len() as int] == k);
                    }
                    if new_map.contains_key(k) && k != device_id@ {
                        let c = choose|c: int| 0 <= c < ids1.len() && ids1[c] == k;
                        assert(ids0[c] == k);
                    }
                    if old_map.contains_key(k) {
                        let c = choose|c: int| 0 <= c < ids0.len() && ids0[c] == k;
                        assert(ids1[c] == k);
                    }
                }
                assert forall|k: Seq<char>| new_map.contains_key(k) implies new_map[k] == expect[k] by {
                    let c = choose|c: int| 0 <= c < ids1.len() && ids1[c] == k;
                    if c == ids0.len() {
                        assert(self.states@[c] == state);
                    } else {
                        let c0 = choose|c0: int| 0 <= c0 < ids0.len() && ids0[c0] == k;
                        assert(c0 == c);
                        assert(self.states@[c] == old(self).states@[c]);
                    }
                }
            }
            assert(new_map =~= expect);
            let prev_set = name_set(prev.0);
            let downs = names_not_in(snap_names, prev_set);
            let ups = names_not_in(prev.0, name_set(snap_names));
            law_button_edges_are_set_difference(snap_names, prev_set);
            law_button_edges_are_set_difference(prev.0, name_set(snap_names));
            lemma_names_not_in_ascending(snap_names, prev_set);
            lemma_names_not_in_ascending(prev.0, name_set(snap_names));
            assert(now.0 == snap_names);
        }
        events
    }
}

/// The per-device state of a session as sets: the pressed buttons and the
/// processed analog values of each device id.
pub type DeviceSets = Map<Seq<char>, (Set<Seq<char>>, Map<Seq<char>, i32>)>;

/// The per-device states after handing `handle_report` the reports `steps`
/// in order, each with whether the target was in the foreground, starting
/// from `new()`: the fold of `handle_report`'s contract, with each device's
/// pressed names taken as a set. A background step forgets every device; a
/// report of unknown layout changes nothing; a decoded report becomes the
/// state of its device.
pub open spec fn device_sets_after(steps: Seq<(RawControllerReport, bool)>) -> DeviceSets
    decreases steps.len(),
{
    if steps.len() == 0 {
        Map::empty()
    } else {
        let prev = device_sets_after(steps.drop_last());
        let r = steps.last().0;
        if !steps.last().1 {
            Map::empty()
        } else {
            match spec_layout(r.report@) {
                None => prev,
                Some(layout) => prev.insert(
                    spec_device_id(r.device_handle),
                    (
                        report_buttons(r.report@, layout.button_offset as int),
                        entries_map(processed_entries(report_analog_entries(r.report@, layout.analog_offset as int))),
                    ),
                ),
            }
        }
    }
}

/// The state of device `id` before a step, or a fresh one.
pub open spec fn sets_or_fresh(m: DeviceSets, id: Seq<char>) -> (Set<Seq<char>>, Map<Seq<char>, i32>) {
    if m.contains_key(id) { m[id] } else { (Set::empty(), Map::empty()) }
}

/// The buttons reported going down at step `i` (none for a background step or
/// an unknown report).
pub open spec fn downs_at(steps: Seq<(RawControllerReport, bool)>, i: int) -> Set<Seq<char>> {
    let r = steps[i].0;
    match spec_layout(r.report@) {
        Some(layout) if steps[i].1 => report_buttons(r.report@, layout.button_offset as int).difference(
            sets_or_fresh(device_sets_after(steps.take(i)), spec_device_id(r.device_handle)).0,
        ),
        _ => Set::empty(),
    }
}

/// The buttons reported coming up at step `i`.
pub open spec fn ups_at(steps: Seq<(RawControllerReport, bool)>, i: int) -> Set<Seq<char>> {
    let r = steps[i].0;
    match spec_layout(r.report@) {
        Some(layout) if steps[i].1 => sets_or_fresh(device_sets_after(steps.take(i)), spec_device_id(r.device_handle)).0.difference(
            report_buttons(r.report@, layout.button_offset as int),
        ),
        _ => Set::empty(),
    }
}

/// The analog events of step `i`.
pub open spec fn analog_at(steps: Seq<(RawControllerReport, bool)>, i: int) -> Seq<(Seq<char>, i32)> {
    let r = steps[i].0;
    match spec_layout(r.report@) {
        Some(layout) if steps[i].1 => analog_changes(
            sets_or_fresh(device_sets_after(steps.take(i)), spec_device_id(r.device_handle)).1,
            report_analog_entries(r.report@, layout.analog_offset as int),
        ),
        _ => Seq::empty(),
    }
}

proof fn lemma_analog_names_distinct(a: int, b: int)
    requires
        0 <= a < b < 6,
    ensures
        spec_analog_name(a) != spec_analog_name(b),
{
    reveal_strlit("axis_left_x");
    reveal_strlit("axis_left_y");
    reveal_strlit("axis_right_x");
    reveal_strlit("axis_right_y");
    reveal_strlit("trigger_left");
    reveal_strlit("trigger_right");
    if spec_analog_name(a) == spec_analog_name(b) {
        if a == 0 && b == 1 {
            assert(spec_analog_name(a)[10] != spec_analog_name(b)[10]);
        } else if a == 2 && b == 3 {
            assert(spec_analog_name(a)[11] != spec_analog_name(b)[11]);
        } else if a == 4 && b == 5 {
            assert(spec_analog_name(a).len() != spec_analog_name(b).len());
        } else if a <= 1 {
            assert(spec_analog_name(a).len() != spec_analog_name(b).len() || spec_analog_name(a)[0]
                != spec_analog_name(b)[0]);
        } else {
            assert(spec_analog_name(a)[0] != spec_analog_name(b)[0]);
        }
    }
}

proof fn lemma_state_kept(steps: Seq<(RawControllerReport, bool)>, i: int, m: int)
    requires
        0 <= i < m <= steps.len(),
        steps[i].1,
        spec_layout(steps[i].0.report@).is_some(),
        forall|k: int|
            i < k < m ==> (#[trigger] steps[k]).1 && (spec_layout(steps[k].0.report@).is_none()
                || steps[k].0.device_handle != steps[i].0.device_handle),
    ensures
        device_sets_after(steps.take(m)).contains_key(spec_device_id(steps[i].0.device_handle)),
        device_sets_after(steps.take(m))[spec_device_id(steps[i].0.device_handle)]
            == device_sets_after(steps.take(i + 1))[spec_device_id(steps[i].0.device_handle)],
    decreases m,
{
    assert(steps.take(m).drop_last() =~= steps.take(m - 1));
    assert(steps.take(m).last() == steps[m - 1]);
    if m > i + 1 {
        lemma_state_kept(steps, i, m - 1);
        let k = m - 1;
        assert(steps[k].1);
        if spec_layout(steps[k].0.report@).is_some() {
            law_device_ids_are_distinct(steps[k].0.device_handle, steps[i].0.device_handle);
        }
    }
}

/// Over a sequence of reports: a report repeated for a device while the
/// target stays in the foreground produces no events, however many reports of
/// other devices or of unknown layouts come in between. (A background step in
/// between forgets every device, so the repeat is then reported afresh.)
pub proof fn law_controller_sequence(steps: Seq<(RawControllerReport, bool)>, i: int, j: int)
    requires
        0 <= i < j < steps.len(),
        steps[i].1,
        steps[j].1,
        spec_layout(steps[i].0.report@).is_some(),
        steps[j].0.report@ == steps[i].0.report@,
        steps[j].0.device_handle == steps[i].0.device_handle,
        forall|k: int|
            i < k < j ==> (#[trigger] steps[k]).1 && (spec_layout(steps[k].0.report@).is_none()
                || steps[k].0.device_handle != steps[i].0.device_handle),
    ensures
        downs_at(steps, j) == Set::<Seq<char>>::empty(),
        ups_at(steps, j) == Set::<Seq<char>>::empty(),
        analog_at(steps, j) == Seq::<(Seq<char>, i32)>::empty(),
{
    let r = steps[i].0;
    let layout = spec_layout(r.report@).unwrap();
    let id = spec_device_id(r.device_handle);
    let pressed = report_buttons(r.report@, layout.button_offset as int);
    let entries = report_analog_entries(r.report@, layout.analog_offset as int);
    lemma_state_kept(steps, i, j);
    assert(steps.take(i + 1).drop_last() =~= steps.take(i));
    assert(steps.take(i + 1).last() == steps[i]);
    assert(device_sets_after(steps.take(i + 1))[id] == (pressed, entries_map(processed_entries(entries))));
    assert(sets_or_fresh(device_sets_after(steps.take(j)), id) == (pressed, entries_map(processed_entries(entries))));
    assert(pressed.difference(pressed) =~= Set::<Seq<char>>::empty());
    assert(distinct_controls(entries)) by {
        assert forall|a: int, b: int| 0 <= a < b < entries.len() implies entries[a].0 != entries[b].0 by {
            lemma_analog_names_distinct(a, b);
        }
    }
    law_repeated_snapshot_is_quiet(Seq::empty(), entries);
}

} // verus!
