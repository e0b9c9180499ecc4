//! The live state of the inputs that can drive scenes: which keys, game
//! pad controls and Art-Net channels are active with which value, and
//! which of them became active in the current frame.
use vstd::prelude::*;

use crate::pair_table::{lemma_lookup_has_entry, KeyTable, TableKey};
use crate::ui_action::{GamepadEvent, InputEvent};

verus! {

impl TableKey for InputEvent {
    fn same(&self, other: &Self) -> (r: bool) {
        *self == *other
    }

    fn duplicate(&self) -> (r: Self) {
        *self
    }
}

/// A value received on a channel of the Art-Net input universe.
#[derive(Clone, Copy, Debug, PartialEq, Eq, Structural)]
pub struct ArtnetEvent {
    pub channel: u16,
    pub value: u8,
}

/// What one game pad event does to the input state.
#[derive(Clone, Copy, Debug, PartialEq, Eq, Structural)]
pub enum GamepadAction {
    /// The event is of no interest.
    Ignore,
    /// A button went down with this value.
    Press(GamepadEvent, u8),
    /// A button went up.
    Release(GamepadEvent),
    /// An axis moved far to one side: that side is pressed, the other
    /// released.
    PressRelease { press: GamepadEvent, release: GamepadEvent, value: u8 },
    /// An axis came back to the middle: both sides released.
    Release2(GamepadEvent, GamepadEvent),
}

/// The action of an axis at `value` (its position scaled to -256..256):
/// beyond 100 to either side that side is pressed with the distance as
/// value (taken modulo 256), in between both sides are released.
pub open spec fn spec_axis_action(min_side: GamepadEvent, max_side: GamepadEvent, value: i16) -> GamepadAction {
    if value < -100 {
        GamepadAction::PressRelease { press: min_side, release: max_side, value: ((-value) % 256) as u8 }
    } else if value > 100 {
        GamepadAction::PressRelease { press: max_side, release: min_side, value: (value % 256) as u8 }
    } else {
        GamepadAction::Release2(min_side, max_side)
    }
}

/// The action of an axis at `value`.
pub fn axis_action(min_side: GamepadEvent, max_side: GamepadEvent, value: i16) -> (r: GamepadAction)
    requires
        -256 <= value <= 256,
    ensures
        r == spec_axis_action(min_side, max_side, value),
{
    if value < -100 {
        let distance: u16 = (-value) as u16;
        GamepadAction::PressRelease { press: min_side, release: max_side, value: (distance % 256) as u8 }
    } else if value > 100 {
        let distance: u16 = value as u16;
        GamepadAction::PressRelease { press: max_side, release: min_side, value: (distance % 256) as u8 }
    } else {
        GamepadAction::Release2(min_side, max_side)
    }
}

/// The value of an input after the keys `held` were pressed, given its
/// value `before`: a held key is live with 255.
pub open spec fn pressed_live(before: Option<u8>, e: InputEvent, held: Seq<u32>) -> Option<u8> {
    match e {
        InputEvent::Key(k) => if held.contains(k) {
            Some(255u8)
        } else {
            before
        },
        _ => before,
    }
}

/// Whether an input is new after the keys `held` were pressed: it was new
/// before, or it is a held key that was not live.
pub open spec fn pressed_new(was_new: bool, before: Option<u8>, e: InputEvent, held: Seq<u32>) -> bool {
    was_new || (e matches InputEvent::Key(k) && held.contains(k) && before is None)
}

/// The value of an input after the listed inputs that are keys not held
/// were released.
pub open spec fn released_live(
    before: Option<u8>,
    e: InputEvent,
    held: Seq<u32>,
    visited: Seq<InputEvent>,
) -> Option<u8> {
    if (e matches InputEvent::Key(k) && !held.contains(k)) && visited.contains(e) {
        None
    } else {
        before
    }
}

proof fn lemma_take_push_contains<T>(s: Seq<T>, i: int)
    requires
        0 <= i < s.len(),
    ensures
        forall|x: T| #[trigger] s.take(i + 1).contains(x) == (s.take(i).contains(x) || x == s[i]),
{
    let t0 = s.take(i);
    let t1 = s.take(i + 1);
    assert forall|x: T| #[trigger] t1.contains(x) == (t0.contains(x) || x == s[i]) by {
        if t1.contains(x) && x != s[i] {
            let m = choose|m: int| 0 <= m < t1.len() && t1[m] == x;
            assert(t0[m] == x);
        }
        if t0.contains(x) {
            let m = choose|m: int| 0 <= m < t0.len() && t0[m] == x;
            assert(t1[m] == x);
        }
        if x == s[i] {
            assert(t1[i] == x);
        }
    }
}

/// The live inputs with their values, and the inputs that became active in
/// the current frame.
pub struct InputState {
    pub events: KeyTable<InputEvent, u8>,
    pub new_events: Vec<InputEvent>,
}

impl InputState {
    /// The table has no key twice and no input is listed twice as new.
    pub open spec fn inv(&self) -> bool {
        &&& self.events.well_formed()
        &&& self.new_events@.no_duplicates()
    }

    /// The value of a live input.
    pub open spec fn live(&self, e: InputEvent) -> Option<u8> {
        self.events.spec_get(e)
    }

    /// Whether an input became active in the current frame.
    pub open spec fn is_new(&self, e: InputEvent) -> bool {
        self.new_events@.contains(e)
    }

    /// Nothing live, nothing new.
    pub fn new() -> (r: Self)
        ensures
            r.inv(),
            forall|e: InputEvent| r.live(e) is None && !r.is_new(e),
    {
        InputState { events: KeyTable::new(), new_events: Vec::new() }
    }

    fn mark_new(&mut self, e: InputEvent)
        requires
            old(self).new_events@.no_duplicates(),
        ensures
            final(self).new_events@.no_duplicates(),
            final(self).events == old(self).events,
            forall|x: InputEvent| final(self).is_new(x) == (old(self).is_new(x) || x == e),
    {
        let mut found = false;
        let mut i: usize = 0;
        while i < self.new_events.len()
            invariant
                i <= self.new_events@.len(),
                self.new_events@ == old(self).new_events@,
                self.events == old(self).events,
                found == old(self).new_events@.contains(e) || forall|j: int| 0 <= j < i ==> self.new_events@[j] != e,
                found ==> old(self).new_events@.contains(e),
            decreases self.new_events@.len() - i,
        {
            if self.new_events[i] == e {
                assert(self.new_events@[i as int] == e);
                found = true;
            }
            i = i + 1;
        }
        if !found {
            let ghost before = self.new_events@;
            self.new_events.push(e);
            proof {
                assert forall|x: InputEvent| self.new_events@.contains(x) == (before.contains(x) || x == e) by {
                    if self.new_events@.contains(x) {
                        let j = choose|j: int| 0 <= j < self.new_events@.len() && self.new_events@[j] == x;
                        if j < before.len() {
                            assert(before[j] == x);
                        }
                    }
                    if before.contains(x) {
                        let j = choose|j: int| 0 <= j < before.len() && before[j] == x;
                        assert(self.new_events@[j] == x);
                    }
                    if x == e {
                        assert(self.new_events@[before.len() as int] == x);
                    }
                }
            }
        }
    }

    /// Start a frame: nothing is new.
    pub fn begin_tick(&mut self)
        requires
            old(self).inv(),
        ensures
            final(self).inv(),
            final(self).events == old(self).events,
            forall|e: InputEvent| !final(self).is_new(e),
    {
        self.new_events.clear();
    }

    /// A value on an Art-Net channel: zero releases the channel, anything
    /// else makes it live with that value.
    pub fn artnet_event(&mut self, event: ArtnetEvent)
        requires
            old(self).inv(),
        ensures
            final(self).inv(),
            final(self).new_events@ == old(self).new_events@,
            final(self).live(InputEvent::Artnet(event.channel)) == (if event.value == 0 {
                None
            } else {
                Some(event.value)
            }),
            forall|e: InputEvent|
                e != InputEvent::Artnet(event.channel) ==> final(self).live(e) == old(self).live(e),
    {
        if event.value == 0 {
            let _ = self.events.remove(InputEvent::Artnet(event.channel));
        } else {
            let _ = self.events.insert(InputEvent::Artnet(event.channel), event.value);
        }
    }

    /// Apply one game pad action: a pressed control becomes live (and
    /// new) with its value, a released one stops being live.
    pub fn apply_gamepad_action(&mut self, action: GamepadAction)
        requires
            old(self).inv(),
        ensures
            final(self).inv(),
            action is Ignore ==> final(self).events == old(self).events,
            action is Ignore ==> final(self).new_events@ == old(self).new_events@,
            action matches GamepadAction::Press(g, value) ==> {
                &&& final(self).live(InputEvent::Gamepad(g)) == Some(value)
                &&& forall|e: InputEvent|
                    e != InputEvent::Gamepad(g) ==> final(self).live(e) == old(self).live(e)
                &&& forall|e: InputEvent|
                    final(self).is_new(e) == (old(self).is_new(e) || e == InputEvent::Gamepad(g))
            },
            action matches GamepadAction::Release(g) ==> {
                &&& final(self).live(InputEvent::Gamepad(g)) is None
                &&& forall|e: InputEvent|
                    e != InputEvent::Gamepad(g) ==> final(self).live(e) == old(self).live(e)
                &&& final(self).new_events@ == old(self).new_events@
            },
            action matches GamepadAction::PressRelease { press, release, value } ==> {
                &&& final(self).live(InputEvent::Gamepad(release)) is None
                &&& press != release ==> final(self).live(InputEvent::Gamepad(press)) == Some(value)
                &&& forall|e: InputEvent|
                    e != InputEvent::Gamepad(press) && e != InputEvent::Gamepad(release)
                        ==> final(self).live(e) == old(self).live(e)
                &&& forall|e: InputEvent|
                    final(self).is_new(e) == (old(self).is_new(e) || e == InputEvent::Gamepad(press))
            },
            action matches GamepadAction::Release2(a, b) ==> {
                &&& final(self).live(InputEvent::Gamepad(a)) is None
                &&& final(self).live(InputEvent::Gamepad(b)) is None
                &&& forall|e: InputEvent|
                    e != InputEvent::Gamepad(a) && e != InputEvent::Gamepad(b)
                        ==> final(self).live(e) == old(self).live(e)
                &&& final(self).new_events@ == old(self).new_events@
            },
    {
        match action {
            GamepadAction::Ignore => {},
            GamepadAction::Press(g, value) => {
                let _ = self.events.insert(InputEvent::Gamepad(g), value);
                self.mark_new(InputEvent::Gamepad(g));
            },
            GamepadAction::Release(g) => {
                let _ = self.events.remove(InputEvent::Gamepad(g));
            },
            GamepadAction::PressRelease { press, release, value } => {
                let _ = self.events.insert(InputEvent::Gamepad(press), value);
                self.mark_new(InputEvent::Gamepad(press));
                let ghost marked = self.new_events@;
                assert forall|e: InputEvent|
                    #[trigger] marked.contains(e) == (old(self).is_new(e) || e == InputEvent::Gamepad(
                        press,
                    )) by {
                    assert(self.is_new(e) == (old(self).is_new(e) || e == InputEvent::Gamepad(press)));
                }
                let _ = self.events.remove(InputEvent::Gamepad(release));
                assert forall|e: InputEvent|
                    self.is_new(e) == (old(self).is_new(e) || e == InputEvent::Gamepad(press)) by {
                    assert(marked.contains(e) == (old(self).is_new(e) || e == InputEvent::Gamepad(
                        press,
                    )));
                }
            },
            GamepadAction::Release2(a, b) => {
                let _ = self.events.remove(InputEvent::Gamepad(a));
                let _ = self.events.remove(InputEvent::Gamepad(b));
            },
        }
    }

    fn holds_key(keys: &Vec<u32>, k: u32) -> (r: bool)
        ensures
            r == keys@.contains(k),
    {
        let mut i: usize = 0;
        while i < keys.len()
            invariant
                i <= keys@.len(),
                forall|j: int| 0 <= j < i ==> keys@[j] != k,
            decreases keys@.len() - i,
        {
            if keys[i] == k {
                assert(keys@[i as int] == k);
                return true;
            }
            i = i + 1;
        }
        false
    }

    /// The keys held down this frame: each becomes live with the full
    /// value 255 (and new, unless it was live already), and keys no longer
    /// held stop being live.
    pub fn set_keys_down(&mut self, keys_down: &Vec<u32>)
        requires
            old(self).inv(),
        ensures
            final(self).inv(),
            forall|e: InputEvent| #[trigger]
                final(self).live(e) == match e {
                    InputEvent::Key(k) => if keys_down@.contains(k) {
                        Some(255u8)
                    } else {
                        None
                    },
                    _ => old(self).live(e),
                },
            forall|e: InputEvent| #[trigger]
                final(self).is_new(e) == (old(self).is_new(e) || (e matches InputEvent::Key(k)
                    && keys_down@.contains(k) && old(self).live(e) is None)),
    {
        let mut i: usize = 0;
        while i < keys_down.len()
            invariant
                self.inv(),
                i <= keys_down@.len(),
                forall|e: InputEvent| #[trigger]
                    self.live(e) == pressed_live(old(self).live(e), e, keys_down@.take(i as int)),
                forall|e: InputEvent| #[trigger]
                    self.is_new(e) == pressed_new(old(self).is_new(e), old(self).live(e), e, keys_down@.take(i as int)),
            decreases keys_down@.len() - i,
        {
            let k = keys_down[i];
            let ghost head = *self;
            let ghost t0 = keys_down@.take(i as int);
            let ghost t1 = keys_down@.take(i as int + 1);
            proof {
                lemma_take_push_contains(keys_down@, i as int);
            }
            let previous = self.events.insert(InputEvent::Key(k), 255);
            if previous.is_none() {
                self.mark_new(InputEvent::Key(k));
            }
            proof {
                assert forall|e: InputEvent| #[trigger]
                    self.live(e) == pressed_live(old(self).live(e), e, t1) by {
                    assert(head.live(e) == pressed_live(old(self).live(e), e, t0));
                }
                assert forall|e: InputEvent| #[trigger]
                    self.is_new(e) == pressed_new(old(self).is_new(e), old(self).live(e), e, t1) by {
                    assert(head.is_new(e) == pressed_new(old(self).is_new(e), old(self).live(e), e, t0));
                    assert(head.live(e) == pressed_live(old(self).live(e), e, t0));
                    if previous.is_none() {
                        assert(self.is_new(e) == (head.is_new(e) || e == InputEvent::Key(k)));
                    }
                }
            }
            i = i + 1;
        }
        proof {
            assert(keys_down@.take(keys_down@.len() as int) =~= keys_down@);
        }
        // Keys no longer held stop being live.
        let ghost after_insert = *self;
        let mut live_keys: Vec<InputEvent> = Vec::new();
        let n = self.events.len();
        let mut j: usize = 0;
        while j < n
            invariant
                *self == after_insert,
                n == after_insert.events.entry_seq().len(),
                j <= n,
                live_keys@.len() == j,
                forall|q: int| 0 <= q < j ==> #[trigger] live_keys@[q] == after_insert.events.entry_seq()[q].0,
            decreases n - j,
        {
            let (e, _) = self.events.entry_at(j);
            live_keys.push(e);
            j = j + 1;
        }
        let mut m: usize = 0;
        while m < live_keys.len()
            invariant
                self.inv(),
                m <= live_keys@.len(),
                self.new_events@ == after_insert.new_events@,
                forall|e: InputEvent| #[trigger]
                    self.live(e) == released_live(after_insert.live(e), e, keys_down@, live_keys@.take(m as int)),
            decreases live_keys@.len() - m,
        {
            let e = live_keys[m];
            let ghost head = *self;
            let ghost l0 = live_keys@.take(m as int);
            let ghost l1 = live_keys@.take(m as int + 1);
            proof {
                lemma_take_push_contains(live_keys@, m as int);
            }
            let drop = match e {
                InputEvent::Key(k) => !Self::holds_key(keys_down, k),
                _ => false,
            };
            if drop {
                let _ = self.events.remove(e);
            }
            proof {
                assert forall|x: InputEvent| #[trigger]
                    self.live(x) == released_live(after_insert.live(x), x, keys_down@, l1) by {
                    assert(head.live(x) == released_live(after_insert.live(x), x, keys_down@, l0));
                }
            }
            m = m + 1;
        }
        proof {
            assert(live_keys@.take(live_keys@.len() as int) =~= live_keys@);
            assert forall|e: InputEvent| #[trigger]
                self.live(e) == match e {
                    InputEvent::Key(k) => if keys_down@.contains(k) {
                        Some(255u8)
                    } else {
                        None
                    },
                    _ => old(self).live(e),
                } by {
                assert(self.live(e) == released_live(after_insert.live(e), e, keys_down@, live_keys@));
                assert(after_insert.live(e) == pressed_live(old(self).live(e), e, keys_down@));
                if let InputEvent::Key(k) = e {
                    if !keys_down@.contains(k) && !live_keys@.contains(e) {
                        lemma_lookup_has_entry(after_insert.events.entry_seq(), e);
                        if after_insert.live(e) is Some {
                            let q = choose|q: int|
                                0 <= q < after_insert.events.entry_seq().len()
                                    && #[trigger] after_insert.events.entry_seq()[q] == (e, after_insert.live(e)->0);
                            assert(live_keys@[q] == e);
                        }
                    }
                }
            }
            assert forall|e: InputEvent| #[trigger]
                self.is_new(e) == (old(self).is_new(e) || (e matches InputEvent::Key(k)
                    && keys_down@.contains(k) && old(self).live(e) is None)) by {
                assert(after_insert.is_new(e) == pressed_new(old(self).is_new(e), old(self).live(e), e, keys_down@));
            }
        }
    }

    /// Some input that became active in this frame, if any.
    pub fn first_new_event(&self) -> (r: Option<InputEvent>)
        ensures
            r is None <==> self.new_events@.len() == 0,
            r matches Some(e) ==> self.is_new(e),
    {
        if self.new_events.len() == 0 {
            None
        } else {
            assert(self.new_events@.contains(self.new_events@[0]));
            Some(self.new_events[0])
        }
    }

    /// Whether `event` became active in this frame.
    pub fn is_event_new(&self, event: &InputEvent) -> (r: bool)
        ensures
            r == self.is_new(*event),
    {
        let mut i: usize = 0;
        while i < self.new_events.len()
            invariant
                i <= self.new_events@.len(),
                forall|j: int| 0 <= j < i ==> self.new_events@[j] != *event,
            decreases self.new_events@.len() - i,
        {
            if self.new_events[i] == *event {
                assert(self.new_events@[i as int] == *event);
                return true;
            }
            i = i + 1;
        }
        false
    }

    /// The value of `event` while it is live.
    pub fn event_live_value(&self, event: &InputEvent) -> (r: Option<u8>)
        requires
            self.inv(),
        ensures
            r == self.live(*event),
    {
        self.events.get(*event)
    }
}

} // verus!
