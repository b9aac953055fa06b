//! The Caps Lock state machine and the keyboard hook's decisions.
use vstd::prelude::*;
use std::time::{Duration, Instant};
use crate::actions::{lookup_in, Action, ActionView, MappingTable};
use crate::keys::{
    key_from_lower, modifier_prefix, Key, ModifierFlags, MOD_ALT, MOD_CTRL, MOD_META, MOD_SHIFT,
};
use crate::codes::{key_vk, lemma_key_names_spell_keys};

verus! {

#[verifier::external_type_specification]
#[verifier::external_body]
pub struct ExInstant(Instant);

/// Calls `Instant::now` (std). Nothing is stated of the moment it returns.
#[verifier::external_body]
fn instant_now() -> Instant {
    Instant::now()
}

/// Calls `Instant::elapsed` (std). Nothing is stated of the time that has
/// passed; std documents that the call does not panic.
#[verifier::external_body]
fn instant_elapsed(t: &Instant) -> Duration {
    t.elapsed()
}

/// Calls `Duration::as_millis` (std). Nothing is stated of the result,
/// since the duration is opaque here.
#[verifier::external_body]
fn duration_as_millis(d: &Duration) -> u128 {
    d.as_millis()
}

/// Where a Caps Lock press stands.
#[derive(Debug, Clone, Copy, PartialEq, Eq, Structural)]
pub enum State {
    /// Caps Lock is up.
    Idle,
    /// Caps Lock is down and no other key has been pressed since.
    Pressed,
    /// Caps Lock is down and another key has been pressed since.
    Held,
}

/// What the hook does with a keyboard event.
#[derive(Debug, PartialEq)]
pub enum HookEvent {
    /// Block the key and carry out the action.
    Action(Action),
    /// Block the key and flip Caps Lock.
    ToggleCapsLock,
    /// Let the key through.
    PassThrough,
    /// Block the key.
    Block,
}

/// The mathematical value of a Caps Lock state machine.
pub struct CapsLockView {
    pub phase: State,
    /// The moment the current press began, if one is recorded.
    pub press_time: Option<Instant>,
    pub other_key_pressed: bool,
    /// The Caps Lock state (0 off, 1 on) that the system reported when the
    /// current press began.
    pub pre_press: i32,
}

impl CapsLockView {
    /// The invariant of every state: another key counts as pressed exactly
    /// while Caps Lock is held, and a press time is recorded exactly while Caps Lock
    /// is down.
    pub open spec fn consistent(self) -> bool {
        &&& self.other_key_pressed <==> self.phase == State::Held
        &&& self.press_time is Some <==> self.phase != State::Idle
    }
}

/// The Caps Lock key as a modifier: tracks one press from down to up.
pub struct CapsLockState {
    state: State,
    press_time: Option<Instant>,
    other_key_pressed: bool,
    capslock_pre_press: i32,
}

impl View for CapsLockState {
    type V = CapsLockView;

    closed spec fn view(&self) -> CapsLockView {
        CapsLockView {
            phase: self.state,
            press_time: self.press_time,
            other_key_pressed: self.other_key_pressed,
            pre_press: self.capslock_pre_press,
        }
    }
}

/// Whether a release asks for Caps Lock to change: a tap (no other key
/// pressed, shorter than the hold threshold) with tap-to-toggle on.
pub open spec fn toggle_wanted(modifier_used: bool, duration_ms: u64, hold_threshold_ms: u64, tap_to_toggle: bool) -> bool {
    !modifier_used && duration_ms < hold_threshold_ms && tap_to_toggle
}

/// The answer to a Caps Lock release: flip Caps Lock exactly when the wanted
/// change and what the keyboard driver did on its own differ.
pub open spec fn release_event(
    modifier_used: bool,
    duration_ms: u64,
    hold_threshold_ms: u64,
    tap_to_toggle: bool,
    driver_toggled: bool,
) -> HookEvent {
    if driver_toggled != toggle_wanted(modifier_used, duration_ms, hold_threshold_ms, tap_to_toggle) {
        HookEvent::ToggleCapsLock
    } else {
        HookEvent::Block
    }
}

/// The answer to a Caps Lock release in state `s` after a press of
/// `duration_ms` milliseconds, with the system reporting Caps Lock as
/// `capslock_now`.
pub open spec fn answer_to_release(
    s: CapsLockView,
    duration_ms: u64,
    hold_threshold_ms: u64,
    tap_to_toggle: bool,
    capslock_now: i32,
) -> HookEvent {
    release_event(s.other_key_pressed, duration_ms, hold_threshold_ms, tap_to_toggle, capslock_now != s.pre_press)
}

/// The answer to a Caps Lock release after a press of `duration_ms`
/// milliseconds, given whether another key was pressed meanwhile and whether
/// the driver changed Caps Lock despite the block.
pub fn decide_release(
    modifier_used: bool,
    duration_ms: u64,
    hold_threshold_ms: u64,
    tap_to_toggle: bool,
    driver_toggled: bool,
) -> (r: HookEvent)
    ensures
        r == release_event(modifier_used, duration_ms, hold_threshold_ms, tap_to_toggle, driver_toggled),
{
    let is_tap = !modifier_used && duration_ms < hold_threshold_ms;
    if modifier_used {
        if driver_toggled {
            HookEvent::ToggleCapsLock
        } else {
            HookEvent::Block
        }
    } else if is_tap && tap_to_toggle {
        if driver_toggled {
            HookEvent::Block
        } else {
            HookEvent::ToggleCapsLock
        }
    } else if is_tap && !tap_to_toggle {
        if driver_toggled {
            HookEvent::ToggleCapsLock
        } else {
            HookEvent::Block
        }
    } else {
        if driver_toggled {
            HookEvent::ToggleCapsLock
        } else {
            HookEvent::Block
        }
    }
}

impl CapsLockState {
    #[verifier::type_invariant]
    spec fn inv(&self) -> bool {
        self@.consistent()
    }

    /// Where the current press stands. Every state of the machine is
    /// consistent: another key counts as pressed exactly while Caps Lock is
    /// held, and a press time is recorded exactly while Caps Lock is down.
    pub fn phase(&self) -> (r: State)
        ensures
            r == self@.phase,
            self@.consistent(),
    {
        proof {
            use_type_invariant(self);
        }
        self.state
    }

    /// A state machine with Caps Lock up.
    pub fn new() -> (r: CapsLockState)
        ensures
            r@ == (CapsLockView { phase: State::Idle, press_time: None, other_key_pressed: false, pre_press: 0 }),
    {
        CapsLockState { state: State::Idle, press_time: None, other_key_pressed: false, capslock_pre_press: 0 }
    }

    /// Caps Lock goes down while the system reports Caps Lock as
    /// `capslock_now`: a press begins, its time recorded, and the key is blocked.
    pub fn on_capslock_down(&mut self, capslock_now: i32) -> (r: HookEvent)
        ensures
            r == HookEvent::Block,
            final(self)@.phase == State::Pressed,
            final(self)@.press_time is Some,
            !final(self)@.other_key_pressed,
            final(self)@.pre_press == capslock_now,
    {
        let t = instant_now();
        *self = CapsLockState {
            state: State::Pressed,
            press_time: Some(t),
            other_key_pressed: false,
            capslock_pre_press: capslock_now,
        };
        HookEvent::Block
    }

    /// Caps Lock goes up while the system reports Caps Lock as
    /// `capslock_now`: the answer is that of `release_event` for the time
    /// the press lasted (0 when no press time is recorded), and Caps Lock is up
    /// again.
    pub fn on_capslock_up(&mut self, hold_threshold_ms: u64, tap_to_toggle: bool, capslock_now: i32) -> (r: HookEvent)
        ensures
            exists|d: u64|
                (old(self)@.press_time is None ==> d == 0) && r == #[trigger] answer_to_release(
                    old(self)@,
                    d,
                    hold_threshold_ms,
                    tap_to_toggle,
                    capslock_now,
                ),
            final(self)@ == (CapsLockView {
                phase: State::Idle,
                press_time: None,
                other_key_pressed: false,
                pre_press: old(self)@.pre_press,
            }),
    {
        let ghost s0 = self@;
        let modifier_used = self.other_key_pressed;
        let duration: u64 = match &self.press_time {
            Some(t) => {
                let d = instant_elapsed(t);
                let ms: u128 = duration_as_millis(&d);
                #[verifier::truncate]
                (ms as u64)
            },
            None => 0,
        };
        let driver_toggled = capslock_now != self.capslock_pre_press;
        let result = decide_release(modifier_used, duration, hold_threshold_ms, tap_to_toggle, driver_toggled);
        assert(result == answer_to_release(s0, duration, hold_threshold_ms, tap_to_toggle, capslock_now));
        let pre: i32 = self.capslock_pre_press;
        *self = CapsLockState { state: State::Idle, press_time: None, other_key_pressed: false, capslock_pre_press: pre };
        result
    }

    /// Another key goes down: while Caps Lock is down the press counts as
    /// held and `Some(State::Held)` is returned; with Caps Lock up nothing
    /// changes and `None` is returned.
    pub fn on_other_key_down(&mut self) -> (r: Option<State>)
        ensures
            old(self)@.phase == State::Idle ==> r is None && final(self)@ == old(self)@,
            old(self)@.phase != State::Idle ==> r == Some(State::Held) && final(self)@ == (CapsLockView {
                phase: State::Held,
                other_key_pressed: true,
                ..old(self)@
            }),
    {
        proof {
            use_type_invariant(&*self);
        }
        match self.state {
            State::Pressed | State::Held => {
                let pt: Option<Instant> = self.press_time;
                let pre: i32 = self.capslock_pre_press;
                *self = CapsLockState {
                    state: State::Held,
                    press_time: pt,
                    other_key_pressed: true,
                    capslock_pre_press: pre,
                };
                Some(State::Held)
            },
            State::Idle => None,
        }
    }
}


/// The virtual-key code of Caps Lock.
pub const VK_CAPITAL: u32 = 0x14;

/// The modifier flag that a virtual-key code stands for: the Shift, Control,
/// Alt and Windows keys, by their generic codes and by their left and right
/// codes (which a low-level keyboard hook reports).
pub open spec fn modifier_flag(vk: u32) -> Option<ModifierFlags> {
    if vk == 0x10 || vk == 0xA0 || vk == 0xA1 {
        Some(MOD_SHIFT)
    } else if vk == 0x11 || vk == 0xA2 || vk == 0xA3 {
        Some(MOD_CTRL)
    } else if vk == 0x12 || vk == 0xA4 || vk == 0xA5 {
        Some(MOD_ALT)
    } else if vk == 0x5B || vk == 0x5C {
        Some(MOD_META)
    } else {
        None
    }
}

/// The held modifiers after a key event: a modifier key going down sets its
/// flag, going up clears it; other keys change nothing.
pub open spec fn tracked_modifiers(mods: ModifierFlags, vk: u32, is_key_down: bool) -> ModifierFlags {
    match modifier_flag(vk) {
        Some(f) => if is_key_down {
            mods | f
        } else {
            mods & !f
        },
        None => mods,
    }
}

/// Whether `r` answers a key pressed while Caps Lock is held, given the
/// action bound to it: that action, or a block where none is bound.
pub open spec fn held_key_answer(bound: Option<ActionView>, r: HookEvent) -> bool {
    match bound {
        Some(a) => r matches HookEvent::Action(x) && x@ == a,
        None => r == HookEvent::Block,
    }
}

impl Clone for HookEvent {
    fn clone(&self) -> (r: HookEvent)
        ensures
            match *self {
                HookEvent::Action(a) => r matches HookEvent::Action(x) && x@ == a@,
                _ => r == *self,
            },
    {
        match self {
            HookEvent::Action(a) => HookEvent::Action(a.duplicate()),
            HookEvent::ToggleCapsLock => HookEvent::ToggleCapsLock,
            HookEvent::PassThrough => HookEvent::PassThrough,
            HookEvent::Block => HookEvent::Block,
        }
    }
}

impl HookEvent {
    /// Whether the event is handed to the main thread: actions and Caps Lock
    /// flips are, blocks and pass-throughs are not.
    pub fn is_forwarded(&self) -> (r: bool)
        ensures
            r == (self is Action || self is ToggleCapsLock),
    {
        match self {
            HookEvent::Action(_) | HookEvent::ToggleCapsLock => true,
            HookEvent::Block | HookEvent::PassThrough => false,
        }
    }

    /// The action that the main thread carries out for the event: the
    /// event's action, a press of Caps Lock for a flip, nothing otherwise.
    pub fn action_to_run(&self) -> (r: Option<Action>)
        ensures
            match self {
                HookEvent::Action(a) => r matches Some(x) && x@ == a@,
                HookEvent::ToggleCapsLock => r matches Some(x) && x@ == ActionView::KeyPress(Key::CapsLock),
                _ => r is None,
            },
    {
        match self {
            HookEvent::Action(a) => Some(a.duplicate()),
            HookEvent::ToggleCapsLock => Some(Action::KeyPress(Key::CapsLock)),
            _ => None,
        }
    }
}

/// What the keyboard hook knows: the Caps Lock state machine, the bindings,
/// the settings and the modifier keys held.
pub struct HookContext {
    pub state: CapsLockState,
    pub mapping: MappingTable,
    pub hold_threshold_ms: u64,
    pub tap_to_toggle: bool,
    pub modifiers: ModifierFlags,
}

impl HookContext {
    /// A hook with Caps Lock up, no modifiers held, and the given bindings
    /// and settings.
    pub fn new(mapping: MappingTable, hold_threshold_ms: u64, tap_to_toggle: bool) -> (r: HookContext)
        ensures
            r.state@ == (CapsLockView { phase: State::Idle, press_time: None, other_key_pressed: false, pre_press: 0 }),
            r.mapping@ == mapping@,
            r.hold_threshold_ms == hold_threshold_ms,
            r.tap_to_toggle == tap_to_toggle,
            r.modifiers == 0,
    {
        HookContext {
            state: CapsLockState::new(),
            mapping,
            hold_threshold_ms,
            tap_to_toggle,
            modifiers: 0,
        }
    }

    fn track_modifier(&mut self, vk_code: u32, is_key_down: bool)
        ensures
            final(self).modifiers == tracked_modifiers(old(self).modifiers, vk_code, is_key_down),
            final(self).state == old(self).state,
            final(self).mapping == old(self).mapping,
            final(self).hold_threshold_ms == old(self).hold_threshold_ms,
            final(self).tap_to_toggle == old(self).tap_to_toggle,
    {
        let flag: Option<ModifierFlags> = if vk_code == 0x10 || vk_code == 0xA0 || vk_code == 0xA1 {
            Some(MOD_SHIFT)
        } else if vk_code == 0x11 || vk_code == 0xA2 || vk_code == 0xA3 {
            Some(MOD_CTRL)
        } else if vk_code == 0x12 || vk_code == 0xA4 || vk_code == 0xA5 {
            Some(MOD_ALT)
        } else if vk_code == 0x5B || vk_code == 0x5C {
            Some(MOD_META)
        } else {
            None
        };
        if let Some(f) = flag {
            if is_key_down {
                self.modifiers = self.modifiers | f;
            } else {
                self.modifiers = self.modifiers & !f;
            }
        }
    }

    /// Replaces the settings and the bindings.
    pub fn update_settings(&mut self, hold_threshold_ms: u64, tap_to_toggle: bool, mapping: MappingTable)
        ensures
            final(self).hold_threshold_ms == hold_threshold_ms,
            final(self).tap_to_toggle == tap_to_toggle,
            final(self).mapping@ == mapping@,
            final(self).state == old(self).state,
            final(self).modifiers == old(self).modifiers,
    {
        self.hold_threshold_ms = hold_threshold_ms;
        self.tap_to_toggle = tap_to_toggle;
        self.mapping = mapping;
    }

    /// The hook's answer to a key event. Modifier keys are tracked first.
    /// Caps Lock going down starts a press and is blocked; Caps Lock going up
    /// ends it with the answer of `on_capslock_up`. Another key going down
    /// while Caps Lock is down is blocked and carries out the action bound
    /// to it, if any, under the modifiers now held; every other event passes
    /// through.
    pub fn process_key(&mut self, vk_code: u32, is_key_down: bool, capslock_now: i32, _mod_flags: ModifierFlags) -> (r: HookEvent)
        ensures
            final(self).modifiers == tracked_modifiers(old(self).modifiers, vk_code, is_key_down),
            final(self).mapping@ == old(self).mapping@,
            final(self).hold_threshold_ms == old(self).hold_threshold_ms,
            final(self).tap_to_toggle == old(self).tap_to_toggle,
            vk_code == VK_CAPITAL && is_key_down ==> r == HookEvent::Block && final(self).state@.phase == State::Pressed
                && final(self).state@.press_time is Some && !final(self).state@.other_key_pressed
                && final(self).state@.pre_press == capslock_now,
            vk_code == VK_CAPITAL && !is_key_down ==> (exists|d: u64|
                (old(self).state@.press_time is None ==> d == 0) && r == #[trigger] answer_to_release(
                    old(self).state@,
                    d,
                    old(self).hold_threshold_ms,
                    old(self).tap_to_toggle,
                    capslock_now,
                )) && final(self).state@ == (CapsLockView {
                phase: State::Idle,
                press_time: None,
                other_key_pressed: false,
                pre_press: old(self).state@.pre_press,
            }),
            vk_code != VK_CAPITAL && is_key_down && old(self).state@.phase != State::Idle ==> held_key_answer(
                lookup_in(old(self).mapping@, vk_code, final(self).modifiers),
                r,
            ) && final(self).state@ == (CapsLockView {
                phase: State::Held,
                other_key_pressed: true,
                ..old(self).state@
            }),
            vk_code != VK_CAPITAL && (!is_key_down || old(self).state@.phase == State::Idle) ==> r
                == HookEvent::PassThrough && final(self).state@ == old(self).state@,
    {
        self.track_modifier(vk_code, is_key_down);
        if vk_code == VK_CAPITAL {
            if is_key_down {
                self.state.on_capslock_down(capslock_now)
            } else {
                let hold = self.hold_threshold_ms;
                let tap = self.tap_to_toggle;
                self.state.on_capslock_up(hold, tap, capslock_now)
            }
        } else if is_key_down {
            if self.state.on_other_key_down().is_some() {
                let tracked_mods = self.modifiers;
                if let Some(action) = self.mapping.lookup(vk_code, tracked_mods) {
                    return HookEvent::Action(action);
                }
                return HookEvent::Block;
            }
            HookEvent::PassThrough
        } else {
            HookEvent::PassThrough
        }
    }
}


/// Whether Caps Lock is on once the hook's answer has been carried out, when
/// the system reported it as `capslock_now` (0 off, 1 on).
pub open spec fn caps_on_after(capslock_now: i32, answer: HookEvent) -> bool {
    if answer == HookEvent::ToggleCapsLock {
        capslock_now == 0
    } else {
        capslock_now == 1
    }
}

/// Whatever the keyboard driver did on its own during a press, once the
/// answer to the release is carried out Caps Lock is on exactly when it was
/// on before the press, flipped when the press was a tap (no other key,
/// shorter than the threshold) with tap-to-toggle on.
pub proof fn lemma_release_outcome(
    pre_press: i32,
    capslock_now: i32,
    modifier_used: bool,
    duration_ms: u64,
    hold_threshold_ms: u64,
    tap_to_toggle: bool,
)
    requires
        pre_press == 0 || pre_press == 1,
        capslock_now == 0 || capslock_now == 1,
    ensures
        caps_on_after(
            capslock_now,
            release_event(modifier_used, duration_ms, hold_threshold_ms, tap_to_toggle, capslock_now != pre_press),
        ) == ((pre_press == 1) != toggle_wanted(modifier_used, duration_ms, hold_threshold_ms, tap_to_toggle)),
        caps_on_after(
            capslock_now,
            release_event(modifier_used, duration_ms, hold_threshold_ms, tap_to_toggle, capslock_now != pre_press),
        ) == ((pre_press == 1) != (!modifier_used && duration_ms < hold_threshold_ms && tap_to_toggle)),
{
}

/// Pressing and releasing a modifier key clears its flag and leaves the
/// other flags as they were; pressing it sets the flag.
pub proof fn lemma_modifier_press_release(mods: ModifierFlags, vk: u32)
    requires
        modifier_flag(vk) is Some,
    ensures
        tracked_modifiers(mods, vk, true) & modifier_flag(vk)->0 == modifier_flag(vk)->0,
        tracked_modifiers(tracked_modifiers(mods, vk, true), vk, false) == mods & !modifier_flag(vk)->0,
{
    let f = modifier_flag(vk)->0;
    assert((mods | f) & f == f) by (bit_vector);
    assert((mods | f) & !f == mods & !f) by (bit_vector);
}

/// The modifier flag that the modifier key `k` stands for: Shift, Control,
/// Alt, and the Windows key for Meta; other keys stand for none.
pub open spec fn key_modifier(k: Key) -> Option<ModifierFlags> {
    match k {
        Key::Shift => Some(MOD_SHIFT),
        Key::Control => Some(MOD_CTRL),
        Key::Alt => Some(MOD_ALT),
        Key::Meta => Some(MOD_META),
        _ => None,
    }
}

/// The virtual-key codes of the left and the right key of the modifier `k`
/// (`VK_LSHIFT`/`VK_RSHIFT`, `VK_LCONTROL`/`VK_RCONTROL`, `VK_LMENU`/`VK_RMENU`,
/// `VK_LWIN`/`VK_RWIN`).
pub open spec fn side_codes(k: Key) -> Option<(u32, u32)> {
    match k {
        Key::Shift => Some((0xA0, 0xA1)),
        Key::Control => Some((0xA2, 0xA3)),
        Key::Alt => Some((0xA4, 0xA5)),
        Key::Meta => Some((0x5B, 0x5C)),
        _ => None,
    }
}

/// Whether `v` is the code of the left or the right key of the modifier `k`.
pub open spec fn is_side_code(k: Key, v: u32) -> bool {
    match side_codes(k) {
        Some((left, right)) => v == left || v == right,
        None => false,
    }
}

/// Each modifier key sets its own flag, by its generic code and by the
/// codes of its left and right keys (both Windows keys for Meta); no other
/// key sets a flag, and no other code does.
pub proof fn lemma_modifier_keys_tracked(k: Key, v: u32)
    ensures
        key_vk(k) == Some(v) ==> modifier_flag(v) == key_modifier(k),
        side_codes(k) matches Some((left, right)) ==> modifier_flag(left) == key_modifier(k)
            && modifier_flag(right) == key_modifier(k),
        key_modifier(k) is Some <==> side_codes(k) is Some,
        modifier_flag(v) matches Some(f) ==> exists|m: Key|
            #[trigger] key_modifier(m) == Some(f) && (key_vk(m) == Some(v) || is_side_code(m, v)),
{
    if let Some(f) = modifier_flag(v) {
        let m = if f == MOD_SHIFT {
            Key::Shift
        } else if f == MOD_CTRL {
            Key::Control
        } else if f == MOD_ALT {
            Key::Alt
        } else {
            Key::Meta
        };
        assert(key_modifier(m) == Some(f));
    }
    if let Key::Unicode(c) = k {
        if key_vk(k) == Some(v) {
            assert(modifier_flag(v) is None);
        }
    }
}

/// The modifier prefix `n+` of a trigger name names, as an action key name,
/// the modifier key that sets that prefix's flag.
pub proof fn lemma_prefix_names_its_key(n: Seq<char>, f: ModifierFlags)
    requires
        modifier_prefix(n + "+"@) == Some((f, n.len() + 1)),
    ensures
        key_from_lower(n) matches Some(k) && key_modifier(k) == Some(f),
{
    reveal_strlit("shift+");
    reveal_strlit("ctrl+");
    reveal_strlit("alt+");
    reveal_strlit("meta+");
    reveal_strlit("win+");
    reveal_strlit("+");
    reveal_strlit("shift");
    reveal_strlit("ctrl");
    reveal_strlit("alt");
    reveal_strlit("meta");
    reveal_strlit("win");
    let l = n + "+"@;
    assert(l.take(l.len() as int) =~= l);
    assert(forall|i: int| 0 <= i < n.len() ==> n[i] == #[trigger] l[i]);
    if f == MOD_SHIFT {
        assert(l =~= "shift+"@);
        assert(n.len() == 5);
        assert forall|i: int| 0 <= i < 5 implies n[i] == #[trigger] "shift"@[i] by {
            assert(n[i] == l[i]);
            if i == 0 {} else if i == 1 {} else if i == 2 {} else if i == 3 {}
        }
        assert(n =~= "shift"@);
        lemma_key_names_spell_keys(n, Key::Shift);
    } else if f == MOD_CTRL {
        assert(l =~= "ctrl+"@);
        assert(n.len() == 4);
        assert forall|i: int| 0 <= i < 4 implies n[i] == #[trigger] "ctrl"@[i] by {
            assert(n[i] == l[i]);
            if i == 0 {} else if i == 1 {} else if i == 2 {}
        }
        assert(n =~= "ctrl"@);
        lemma_key_names_spell_keys(n, Key::Control);
    } else if f == MOD_ALT {
        assert(l =~= "alt+"@);
        assert(n.len() == 3);
        assert forall|i: int| 0 <= i < 3 implies n[i] == #[trigger] "alt"@[i] by {
            assert(n[i] == l[i]);
            if i == 0 {} else if i == 1 {}
        }
        assert(n =~= "alt"@);
        lemma_key_names_spell_keys(n, Key::Alt);
    } else if n.len() == 4 {
        assert(l =~= "meta+"@);
        assert(n.len() == 4);
        assert forall|i: int| 0 <= i < 4 implies n[i] == #[trigger] "meta"@[i] by {
            assert(n[i] == l[i]);
            if i == 0 {} else if i == 1 {} else if i == 2 {}
        }
        assert(n =~= "meta"@);
        lemma_key_names_spell_keys(n, Key::Meta);
    } else {
        assert(l =~= "win+"@);
        assert(n.len() == 3);
        assert forall|i: int| 0 <= i < 3 implies n[i] == #[trigger] "win"@[i] by {
            assert(n[i] == l[i]);
            if i == 0 {} else if i == 1 {}
        }
        assert(n =~= "win"@);
        lemma_key_names_spell_keys(n, Key::Meta);
    }
}

} // verus!
