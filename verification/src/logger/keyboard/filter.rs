//! Suppression of auto-repeat: a key is logged going down once, and coming
//! up only after it was logged going down.
use vstd::prelude::*;
use super::model::{
    KeyboardInputEvent, KeyboardInputKind, KeyboardKeyId, RawKeyboardEvent, spec_key_name,
};

verus! {

/// The keys currently held down, as far as the log is concerned.
#[derive(Debug)]
pub struct KeyboardEventFilter {
    pressed: Vec<KeyboardKeyId>,
}

/// Whether an event is logged when `held` are the keys down: a `Down` of a
/// key that is not down, or an `Up` of a key that is.
pub open spec fn passes(held: Set<KeyboardKeyId>, event: RawKeyboardEvent) -> bool {
    match event.kind {
        KeyboardInputKind::Down => !held.contains(event.key),
        KeyboardInputKind::Up => held.contains(event.key),
    }
}

/// The keys down after `event`.
pub open spec fn held_after(held: Set<KeyboardKeyId>, event: RawKeyboardEvent) -> Set<KeyboardKeyId> {
    match event.kind {
        KeyboardInputKind::Down => held.insert(event.key),
        KeyboardInputKind::Up => held.remove(event.key),
    }
}

/// No key occurs twice.
pub open spec fn distinct_keys(s: Seq<KeyboardKeyId>) -> bool {
    forall|i: int, j: int| 0 <= i < j < s.len() ==> s[i] != s[j]
}

fn position_of(keys: &Vec<KeyboardKeyId>, key: KeyboardKeyId) -> (r: Option<usize>)
    ensures
        match r {
            Some(i) => i < keys.len() && keys@[i as int] == key,
            None => !keys@.contains(key),
        },
{
    let mut i: usize = 0;
    while i < keys.len()
        invariant
            i <= keys.len(),
            forall|j: int| 0 <= j < i ==> keys@[j] != key,
        decreases keys.len() - i,
    {
        if keys[i] == key {
            return Some(i);
        }
        i = i + 1;
    }
    None
}

impl KeyboardEventFilter {
    #[verifier::type_invariant]
    spec fn wf(self) -> bool {
        distinct_keys(self.pressed@)
    }

    /// The keys held down.
    pub closed spec fn pressed_keys(&self) -> Set<KeyboardKeyId> {
        self.pressed@.to_set()
    }

    /// A filter with no key held down.
    pub fn new() -> (r: Self)
        ensures
            r.pressed_keys() == Set::<KeyboardKeyId>::empty(),
    {
        let r = KeyboardEventFilter { pressed: Vec::new() };
        proof {
            assert(r.pressed@.to_set() =~= Set::<KeyboardKeyId>::empty());
        }
        r
    }

    /// Lets a `Down` through unless the key is already down, and an `Up`
    /// through only if the key is down; records the key's new state.
    /// `layout_name` is what the keyboard layout calls the key, if anything.
    pub fn accept(&mut self, event: RawKeyboardEvent, layout_name: Option<String>) -> (r: Option<
        KeyboardInputEvent,
    >)
        ensures
            r.is_some() == passes(old(self).pressed_keys(), event),
            final(self).pressed_keys() == held_after(old(self).pressed_keys(), event),
            r.is_some() ==> {
                let e = r.unwrap();
                &&& e.virtual_key == event.key.virtual_key
                &&& e.scan_code == event.key.scan_code
                &&& e.key_name@ == spec_key_name(
                    event.key,
                    match layout_name {
                        Some(n) => Some(n@),
                        None => None,
                    },
                )
                &&& e.kind == event.kind
                &&& e.is_injected == event.is_injected
            },
    {
        proof {
            use_type_invariant(&*self);
        }
        let found = position_of(&self.pressed, event.key);
        match event.kind {
            KeyboardInputKind::Down => {
                if found.is_some() {
                    proof {
                        let i = found.unwrap();
                        assert(self.pressed@.to_set().contains(event.key)) by {
                            assert(self.pressed@.contains(event.key));
                        }
                        assert(self.pressed@.to_set().insert(event.key) =~= self.pressed@.to_set());
                    }
                    return None;
                }
                let mut pressed: Vec<KeyboardKeyId> = Vec::new();
                std::mem::swap(&mut pressed, &mut self.pressed);
                let ghost before = pressed@;
                pressed.push(event.key);
                proof {
                    broadcast use vstd::seq_lib::group_seq_properties;
                    assert(pressed@ =~= before.push(event.key));
                    assert(pressed@.to_set() =~= before.to_set().insert(event.key));
                    assert(distinct_keys(pressed@)) by {
                        assert forall|a: int, b: int| 0 <= a < b < pressed@.len() implies pressed@[a] != pressed@[b] by {
                            if b == before.len() {
                                assert(before.contains(before[a]));
                            }
                        }
                    }
                }
                self.pressed = pressed;
            },
            KeyboardInputKind::Up => {
                let i = match found {
                    Some(i) => i,
                    None => {
                        proof {
                            assert(!self.pressed@.to_set().contains(event.key));
                            assert(self.pressed@.to_set().remove(event.key) =~= self.pressed@.to_set());
                        }
                        return None;
                    },
                };
                let mut pressed: Vec<KeyboardKeyId> = Vec::new();
                std::mem::swap(&mut pressed, &mut self.pressed);
                let ghost before = pressed@;
                pressed.remove(i);
                proof {
                    broadcast use vstd::seq_lib::group_seq_properties;
                    let after = pressed@;
                    assert(after =~= before.remove(i as int));
                    assert(distinct_keys(after)) by {
                        assert forall|a: int, b: int| 0 <= a < b < after.len() implies after[a] != after[b] by {
                            let a0 = if a < i { a } else { a + 1 };
                            let b0 = if b < i { b } else { b + 1 };
                            assert(after[a] == before[a0]);
                            assert(after[b] == before[b0]);
                        }
                    }
                    assert(after.to_set() =~= before.to_set().remove(event.key)) by {
                        assert forall|k: KeyboardKeyId| after.to_set().contains(k) == before.to_set().remove(event.key).contains(k) by {
                            if after.contains(k) {
                                let j = choose|j: int| 0 <= j < after.len() && after[j] == k;
                                let j0 = if j < i { j } else { j + 1 };
                                assert(before[j0] == k);
                                assert(j0 != i);
                                assert(before.contains(k));
                            }
                            if before.contains(k) && k != event.key {
                                let j = choose|j: int| 0 <= j < before.len() && before[j] == k;
                                assert(j != i);
                                let j1 = if j < i { j } else { j - 1 };
                                assert(after[j1] == k);
                                assert(after.contains(k));
                            }
                        }
                    }
                }
                self.pressed = pressed;
            },
        }
        Some(KeyboardInputEvent::from_raw(event, layout_name))
    }

    /// Forgets every held key.
    pub fn clear(&mut self)
        ensures
            final(self).pressed_keys() == Set::<KeyboardKeyId>::empty(),
    {
        self.pressed = Vec::new();
        proof {
            assert(self.pressed@.to_set() =~= Set::<KeyboardKeyId>::empty());
        }
    }

    /// The filter step of the logging worker: while the target is not in the
    /// foreground nothing is logged and every held key is forgotten;
    /// otherwise the event goes through `accept`.
    pub fn process(
        &mut self,
        event: RawKeyboardEvent,
        target_is_foreground: bool,
        layout_name: Option<String>,
    ) -> (r: Option<KeyboardInputEvent>)
        ensures
            !target_is_foreground ==> r.is_none() && final(self).pressed_keys() == Set::<
                KeyboardKeyId,
            >::empty(),
            target_is_foreground ==> r.is_some() == passes(old(self).pressed_keys(), event),
            target_is_foreground ==> final(self).pressed_keys() == held_after(
                old(self).pressed_keys(),
                event,
            ),
            target_is_foreground && r.is_some() ==> {
                let e = r.unwrap();
                &&& e.virtual_key == event.key.virtual_key
                &&& e.scan_code == event.key.scan_code
                &&& e.key_name@ == spec_key_name(
                    event.key,
                    match layout_name {
                        Some(n) => Some(n@),
                        None => None,
                    },
                )
                &&& e.kind == event.kind
                &&& e.is_injected == event.is_injected
            },
    {
        if !target_is_foreground {
            self.clear();
            return None;
        }
        self.accept(event, layout_name)
    }
}

/// A held key is logged going down once: a repeated `Down` is dropped, the
/// `Up` that follows is logged, and after it the next `Down` is logged again.
/// Once the held keys are forgotten, an `Up` is not logged.
pub proof fn law_repeat_down_is_suppressed(
    held: Set<KeyboardKeyId>,
    down: RawKeyboardEvent,
    up: RawKeyboardEvent,
)
    requires
        down.kind == KeyboardInputKind::Down,
        up.kind == KeyboardInputKind::Up,
        up.key == down.key,
    ensures
        !passes(held_after(held, down), down),
        passes(held_after(held, down), up),
        passes(held_after(held_after(held, down), up), down),
        !passes(Set::<KeyboardKeyId>::empty(), up),
{
}

/// The keys held after handing `process` the events `steps` in order, each
/// with whether the target was in the foreground, starting from `new()`:
/// the fold of `process`'s contract (held keys follow `held_after` in the
/// foreground and are forgotten otherwise).
pub open spec fn held_after_steps(steps: Seq<(RawKeyboardEvent, bool)>) -> Set<KeyboardKeyId>
    decreases steps.len(),
{
    if steps.len() == 0 {
        Set::empty()
    } else {
        let prev = held_after_steps(steps.drop_last());
        if steps.last().1 {
            held_after(prev, steps.last().0)
        } else {
            Set::empty()
        }
    }
}

/// Whether step `i` of such a sequence is logged: in the foreground and
/// passing the filter with the keys held before it.
pub open spec fn logged_step(steps: Seq<(RawKeyboardEvent, bool)>, i: int) -> bool {
    steps[i].1 && passes(held_after_steps(steps.take(i)), steps[i].0)
}

proof fn lemma_key_stays_held(
    steps: Seq<(RawKeyboardEvent, bool)>,
    i: int,
    m: int,
    key: KeyboardKeyId,
)
    requires
        0 <= i < m <= steps.len(),
        steps[i].1,
        steps[i].0.kind == KeyboardInputKind::Down,
        steps[i].0.key == key,
        forall|k: int|
            i < k < m ==> #[trigger] steps[k].1 && !(logged_step(steps, k) && steps[k].0.kind
                == KeyboardInputKind::Up && steps[k].0.key == key),
    ensures
        held_after_steps(steps.take(m)).contains(key),
    decreases m,
{
    assert(steps.take(m).drop_last() =~= steps.take(m - 1));
    assert(steps.take(m).last() == steps[m - 1]);
    if m == i + 1 {
    } else {
        lemma_key_stays_held(steps, i, m - 1, key);
        let k = m - 1;
        assert(steps[k].1);
        let held = held_after_steps(steps.take(k));
        let e = steps[k].0;
        if e.kind == KeyboardInputKind::Up && e.key == key {
            assert(logged_step(steps, k));
        }
    }
}

/// Auto-repeat is suppressed over a whole sequence of events: between two
/// logged `Down`s of one key there is a logged `Up` of that key, or a step
/// while the target was not in the foreground (which forgets held keys).
/// Every logged step happened in the foreground.
pub proof fn law_keyboard_sequence(steps: Seq<(RawKeyboardEvent, bool)>, i: int, j: int)
    requires
        0 <= i < j < steps.len(),
        logged_step(steps, i),
        logged_step(steps, j),
        steps[i].0.kind == KeyboardInputKind::Down,
        steps[j].0.kind == KeyboardInputKind::Down,
        steps[i].0.key == steps[j].0.key,
    ensures
        steps[i].1 && steps[j].1,
        exists|k: int|
            i < k < j && (!(#[trigger] steps[k]).1 || (logged_step(steps, k) && steps[k].0.kind
                == KeyboardInputKind::Up && steps[k].0.key == steps[i].0.key)),
{
    let key = steps[i].0.key;
    if !(exists|k: int|
        i < k < j && (!(#[trigger] steps[k]).1 || (logged_step(steps, k) && steps[k].0.kind
            == KeyboardInputKind::Up && steps[k].0.key == key))) {
        assert forall|k: int| i < k < j implies #[trigger] steps[k].1 && !(logged_step(steps, k)
            && steps[k].0.kind == KeyboardInputKind::Up && steps[k].0.key == key) by {
            if !steps[k].1 || (logged_step(steps, k) && steps[k].0.kind == KeyboardInputKind::Up
                && steps[k].0.key == key) {
                assert(i < k < j);
            }
        }
        lemma_key_stays_held(steps, i, j, key);
        assert(!passes(held_after_steps(steps.take(j)), steps[j].0));
    }
}

} // verus!
