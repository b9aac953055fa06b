//! Actions: what a trigger key does, how action texts are parsed, the keyboard
//! events that carry an action out, and the table from trigger keys to actions.
use vstd::prelude::*;
use std::collections::HashMap;
use crate::config::{pair_views, CursorMap};
use crate::keys::{binding_of_name, char_to_vk, key_of_chars, key_of_name, Key, ModifierFlags, MOD_NONE};
use crate::text::{chars_of, contains_char, lemma_trimmed_idempotent, split, split_on, trim, trimmed, views};

verus! {

/// What a trigger key does.
#[derive(Debug, PartialEq)]
pub enum Action {
    /// One key, pressed and released.
    KeyPress(Key),
    /// Modifier keys held down around a last, main key.
    KeyChord(Vec<Key>),
    /// Actions carried out one after another.
    Sequence(Vec<Action>),
}

/// The mathematical value of an action.
pub enum ActionView {
    KeyPress(Key),
    KeyChord(Seq<Key>),
    Sequence(Seq<ActionView>),
}

impl View for Action {
    type V = ActionView;

    open spec fn view(&self) -> ActionView {
        action_view(*self)
    }
}

/// The mathematical value of an action.
pub open spec fn action_view(a: Action) -> ActionView
    decreases a,
{
    match a {
        Action::KeyPress(k) => ActionView::KeyPress(k),
        Action::KeyChord(ks) => ActionView::KeyChord(ks@),
        Action::Sequence(v) => {
            proof {
                assert(decreases_to!(a => v));
                assert(decreases_to!(v => v@));
            }
            ActionView::Sequence(actions_view(v@))
        },
    }
}

/// The mathematical values of a list of actions.
pub open spec fn actions_view(s: Seq<Action>) -> Seq<ActionView>
    decreases s,
{
    if s.len() == 0 {
        Seq::<ActionView>::empty()
    } else {
        proof {
            assert(decreases_to!(s => s[s.len() - 1]));
            assert(decreases_to!(s => s.subrange(0, s.len() - 1)));
        }
        actions_view(s.subrange(0, s.len() - 1)).push(action_view(s[s.len() - 1]))
    }
}

/// `actions_view` views each action in its place.
pub proof fn lemma_actions_view(s: Seq<Action>)
    ensures
        actions_view(s).len() == s.len(),
        forall|i: int| 0 <= i < s.len() ==> #[trigger] actions_view(s)[i] == s[i]@,
    decreases s.len(),
{
    if s.len() > 0 {
        let t = s.subrange(0, s.len() - 1);
        lemma_actions_view(t);
        assert forall|i: int| 0 <= i < s.len() implies #[trigger] actions_view(s)[i] == s[i]@ by {
            if i < s.len() - 1 {
                assert(t[i] == s[i]);
            }
        }
    }
}

proof fn lemma_sequence_view(v: Vec<Action>)
    ensures
        Action::Sequence(v)@ == ActionView::Sequence(Seq::new(v@.len(), |i: int| v@[i]@)),
{
    lemma_actions_view(v@);
    assert(actions_view(v@) =~= Seq::new(v@.len(), |i: int| v@[i]@));
}

/// The view of an optional action.
pub open spec fn view_opt(o: Option<Action>) -> Option<ActionView> {
    match o {
        Some(a) => Some(a@),
        None => None,
    }
}

impl Clone for Action {
    fn clone(&self) -> (r: Action)
        ensures
            r@ == self@,
    {
        self.duplicate()
    }
}

impl Action {
    /// A copy of this action.
    #[verifier::loop_isolation(false)]
    pub fn duplicate(&self) -> (r: Action)
        ensures
            r@ == self@,
        decreases self,
    {
        match self {
            Action::KeyPress(k) => Action::KeyPress(*k),
            Action::KeyChord(ks) => {
                let mut out: Vec<Key> = Vec::new();
                let mut i: usize = 0;
                while i < ks.len()
                    invariant
                        i <= ks@.len(),
                        out@ == ks@.take(i as int),
                    decreases ks@.len() - i,
                {
                    out.push(ks[i]);
                    i = i + 1;
                }
                assert(out@ =~= ks@);
                Action::KeyChord(out)
            },
            Action::Sequence(v) => {
                let mut out: Vec<Action> = Vec::new();
                let mut i: usize = 0;
                while i < v.len()
                    invariant
                        i <= v@.len(),
                        out@.len() == i,
                        forall|j: int| 0 <= j < i ==> (#[trigger] out@[j])@ == v@[j]@,
                    decreases v@.len() - i,
                {
                    proof {
                        assert(decreases_to!(*self => *v));
                        assert(decreases_to!(*v => v@));
                        assert(decreases_to!(v@ => v@[i as int]));
                    }
                    let a = v[i].duplicate();
                    out.push(a);
                    i = i + 1;
                }
                proof {
                    lemma_sequence_view(out);
                    lemma_sequence_view(*v);
                    assert(Seq::new(out@.len(), |j: int| out@[j]@) =~= Seq::new(v@.len(), |j: int| v@[j]@));
                }
                Action::Sequence(out)
            },
        }
    }
}

/// The keys named by the pieces of a chord text, each piece trimmed; `None`
/// where a piece names no key.
pub open spec fn keys_of_parts(parts: Seq<Seq<char>>) -> Option<Seq<Key>>
    decreases parts.len(),
{
    if parts.len() == 0 {
        Some(Seq::<Key>::empty())
    } else {
        match (keys_of_parts(parts.drop_last()), key_of_name(trimmed(parts.last()))) {
            (Some(ks), Some(k)) => Some(ks.push(k)),
            _ => None,
        }
    }
}

/// The action that a text without commas denotes: a chord such as
/// `Shift+End` (at least two keys joined by `+`, each one naming a key), or a
/// single key name.
pub open spec fn single_action(s: Seq<char>) -> Option<ActionView> {
    let v = trimmed(s);
    if v.contains('+') {
        match keys_of_parts(split_on(v, '+')) {
            Some(ks) => if ks.len() >= 2 {
                Some(ActionView::KeyChord(ks))
            } else {
                None
            },
            None => None,
        }
    } else {
        match key_of_name(v) {
            Some(k) => Some(ActionView::KeyPress(k)),
            None => None,
        }
    }
}

/// The actions denoted by the pieces of a sequence text, each piece trimmed;
/// `None` where a piece denotes no action.
pub open spec fn actions_of_parts(parts: Seq<Seq<char>>) -> Option<Seq<ActionView>>
    decreases parts.len(),
{
    if parts.len() == 0 {
        Some(Seq::<ActionView>::empty())
    } else {
        match (actions_of_parts(parts.drop_last()), single_action(trimmed(parts.last()))) {
            (Some(xs), Some(x)) => Some(xs.push(x)),
            _ => None,
        }
    }
}

/// The action that an action text denotes: a comma-separated sequence of at
/// least two actions, each of which must parse, or a single action.
pub open spec fn action_of_text(s: Seq<char>) -> Option<ActionView> {
    let v = trimmed(s);
    if v.contains(',') {
        match actions_of_parts(split_on(v, ',')) {
            Some(xs) => if xs.len() >= 2 {
                Some(ActionView::Sequence(xs))
            } else {
                None
            },
            None => None,
        }
    } else {
        single_action(v)
    }
}

fn keys_of(parts: &Vec<Vec<char>>) -> (r: Option<Vec<Key>>)
    ensures
        match r {
            Some(ks) => keys_of_parts(views(parts@)) == Some(ks@),
            None => keys_of_parts(views(parts@)) is None,
        },
{
    let mut out: Vec<Key> = Vec::new();
    let mut i: usize = 0;
    while i < parts.len()
        invariant
            i <= parts@.len(),
            keys_of_parts(views(parts@).take(i as int)) == Some(out@),
        decreases parts@.len() - i,
    {
        let ghost ps = views(parts@).take(i as int + 1);
        assert(ps.drop_last() =~= views(parts@).take(i as int));
        assert(ps.last() == parts@[i as int]@);
        let t = trim(&parts[i]);
        match key_of_chars(&t) {
            Some(k) => {
                out.push(k);
            },
            None => {
                proof {
                    lemma_keys_prefix_none(views(parts@), i as int + 1);
                }
                return None;
            },
        }
        i = i + 1;
    }
    assert(views(parts@).take(parts@.len() as int) =~= views(parts@));
    Some(out)
}

proof fn lemma_keys_prefix_none(parts: Seq<Seq<char>>, n: int)
    requires
        0 <= n <= parts.len(),
        keys_of_parts(parts.take(n)) is None,
    ensures
        keys_of_parts(parts) is None,
    decreases parts.len() - n,
{
    if n < parts.len() {
        let p = parts.take(n + 1);
        assert(p.drop_last() =~= parts.take(n));
        lemma_keys_prefix_none(parts, n + 1);
    } else {
        assert(parts.take(n) =~= parts);
    }
}

proof fn lemma_actions_prefix_none(parts: Seq<Seq<char>>, n: int)
    requires
        0 <= n <= parts.len(),
        actions_of_parts(parts.take(n)) is None,
    ensures
        actions_of_parts(parts) is None,
    decreases parts.len() - n,
{
    if n < parts.len() {
        let p = parts.take(n + 1);
        assert(p.drop_last() =~= parts.take(n));
        lemma_actions_prefix_none(parts, n + 1);
    } else {
        assert(parts.take(n) =~= parts);
    }
}

fn single_action_of(v: &Vec<char>) -> (r: Option<Action>)
    ensures
        view_opt(r) == single_action(v@),
{
    let t = trim(v);
    if contains_char(&t, '+') {
        let parts = split(&t, '+');
        match keys_of(&parts) {
            Some(ks) => {
                if ks.len() >= 2 {
                    Some(Action::KeyChord(ks))
                } else {
                    None
                }
            },
            None => None,
        }
    } else {
        match key_of_chars(&t) {
            Some(k) => Some(Action::KeyPress(k)),
            None => None,
        }
    }
}

/// The action that a text without commas denotes.
pub fn parse_single_action(value: &str) -> (r: Option<Action>)
    ensures
        view_opt(r) == single_action(value@),
{
    let v = chars_of(value);
    single_action_of(&v)
}

/// The action that an action text denotes, such as `Up`, `Ctrl+Left` or
/// `Home, Shift+End, Delete`.
pub fn parse_action(value: &str) -> (r: Option<Action>)
    ensures
        view_opt(r) == action_of_text(value@),
{
    let v = chars_of(value);
    let t = trim(&v);
    if contains_char(&t, ',') {
        let parts = split(&t, ',');
        let mut out: Vec<Action> = Vec::new();
        let mut i: usize = 0;
        while i < parts.len()
            invariant
                i <= parts@.len(),
                views(parts@) == split_on(trimmed(value@), ','),
                trimmed(value@).contains(','),
                actions_of_parts(views(parts@).take(i as int)) == Some(
                    Seq::new(out@.len(), |j: int| out@[j]@),
                ),
            decreases parts@.len() - i,
        {
            let ghost ps = views(parts@).take(i as int + 1);
            assert(ps.drop_last() =~= views(parts@).take(i as int));
            assert(ps.last() == parts@[i as int]@);
            let pt = trim(&parts[i]);
            match single_action_of(&pt) {
                Some(a) => {
                    let ghost before = Seq::new(out@.len(), |j: int| out@[j]@);
                    out.push(a);
                    assert(Seq::new(out@.len(), |j: int| out@[j]@) =~= before.push(a@));
                },
                None => {
                    proof {
                        assert(actions_of_parts(ps) is None);
                        lemma_actions_prefix_none(views(parts@), i as int + 1);
                    }
                    return None;
                },
            }
            i = i + 1;
        }
        assert(views(parts@).take(parts@.len() as int) =~= views(parts@));
        if out.len() >= 2 {
            proof {
                lemma_sequence_view(out);
            }
            let r = Action::Sequence(out);
            Some(r)
        } else {
            None
        }
    } else {
        single_action_of(&t)
    }
}


/// How a key is sent: held down, let go, or pressed and let go at once.
#[derive(Debug, Clone, Copy, PartialEq, Eq, Structural)]
pub enum KeyDirection {
    Press,
    Release,
    Click,
}

/// The keyboard events of a chord: every modifier held down in order, the
/// main key clicked, the modifiers let go in reverse order.
pub open spec fn chord_strokes(ks: Seq<Key>) -> Seq<(Key, KeyDirection)> {
    let mods = ks.drop_last();
    mods.map_values(|k: Key| (k, KeyDirection::Press)) + seq![(ks.last(), KeyDirection::Click)]
        + mods.reverse().map_values(|k: Key| (k, KeyDirection::Release))
}

/// The keyboard events that carry out an action.
pub open spec fn strokes(a: ActionView) -> Seq<(Key, KeyDirection)>
    decreases a,
{
    match a {
        ActionView::KeyPress(k) => seq![(k, KeyDirection::Click)],
        ActionView::KeyChord(ks) => chord_strokes(ks),
        ActionView::Sequence(xs) => {
            proof {
                assert(decreases_to!(a => xs));
            }
            strokes_of_all(xs)
        },
    }
}

/// The keyboard events of actions carried out one after another.
pub open spec fn strokes_of_all(xs: Seq<ActionView>) -> Seq<(Key, KeyDirection)>
    decreases xs,
{
    if xs.len() == 0 {
        Seq::<(Key, KeyDirection)>::empty()
    } else {
        proof {
            assert(decreases_to!(xs => xs[xs.len() - 1]));
            assert(decreases_to!(xs => xs.subrange(0, xs.len() - 1)));
        }
        strokes_of_all(xs.subrange(0, xs.len() - 1)) + strokes(xs[xs.len() - 1])
    }
}

/// Whether an action can be carried out: every chord in it has a main key.
pub open spec fn runnable(a: ActionView) -> bool
    decreases a,
{
    match a {
        ActionView::KeyPress(k) => true,
        ActionView::KeyChord(ks) => ks.len() > 0,
        ActionView::Sequence(xs) => {
            proof {
                assert(decreases_to!(a => xs));
            }
            all_runnable(xs)
        },
    }
}

/// Whether every action of a list can be carried out.
pub open spec fn all_runnable(xs: Seq<ActionView>) -> bool
    decreases xs,
{
    if xs.len() == 0 {
        true
    } else {
        proof {
            assert(decreases_to!(xs => xs[xs.len() - 1]));
            assert(decreases_to!(xs => xs.subrange(0, xs.len() - 1)));
        }
        all_runnable(xs.subrange(0, xs.len() - 1)) && runnable(xs[xs.len() - 1])
    }
}

proof fn lemma_all_runnable(xs: Seq<ActionView>, i: int)
    requires
        all_runnable(xs),
        0 <= i < xs.len(),
    ensures
        runnable(xs[i]),
    decreases xs.len(),
{
    if i < xs.len() - 1 {
        let t = xs.subrange(0, xs.len() - 1);
        lemma_all_runnable(t, i);
        assert(t[i] == xs[i]);
    }
}

proof fn lemma_not_all_runnable(xs: Seq<ActionView>, i: int)
    requires
        0 <= i < xs.len(),
        !runnable(xs[i]),
    ensures
        !all_runnable(xs),
{
    if all_runnable(xs) {
        lemma_all_runnable(xs, i);
    }
}

proof fn lemma_strokes_of_all_take(xs: Seq<ActionView>, i: int)
    requires
        0 <= i < xs.len(),
    ensures
        strokes_of_all(xs.take(i + 1)) == strokes_of_all(xs.take(i)) + strokes(xs[i]),
{
    let t = xs.take(i + 1);
    assert(t.subrange(0, t.len() - 1) =~= xs.take(i));
}

#[verifier::loop_isolation(false)]
fn push_strokes(a: &Action, out: &mut Vec<(Key, KeyDirection)>)
    requires
        runnable(a@),
    ensures
        final(out)@ == old(out)@ + strokes(a@),
    decreases a,
{
    match a {
        Action::KeyPress(k) => {
            out.push((*k, KeyDirection::Click));
            assert(final(out)@ =~= old(out)@ + strokes(a@));
        },
        Action::KeyChord(keys) => {
            let n: usize = keys.len();
            let ghost mods = keys@.drop_last();
            let mut i: usize = 0;
            while i + 1 < n
                invariant
                    n == keys@.len() > 0,
                    mods == keys@.drop_last(),
                    i <= n - 1,
                    out@ == old(out)@ + mods.take(i as int).map_values(
                        |k: Key| (k, KeyDirection::Press),
                    ),
                decreases n - i,
            {
                let ghost before = out@;
                out.push((keys[i], KeyDirection::Press));
                assert(mods.take(i as int + 1).map_values(|k: Key| (k, KeyDirection::Press))
                    =~= mods.take(i as int).map_values(|k: Key| (k, KeyDirection::Press)).push(
                    (keys@[i as int], KeyDirection::Press),
                ));
                assert(out@ =~= old(out)@ + mods.take(i as int + 1).map_values(
                    |k: Key| (k, KeyDirection::Press),
                ));
                i = i + 1;
            }
            assert(mods.take(n - 1) =~= mods);
            out.push((keys[n - 1], KeyDirection::Click));
            let ghost mid = out@;
            let mut j: usize = n - 1;
            while j > 0
                invariant
                    n == keys@.len() > 0,
                    mods == keys@.drop_last(),
                    j <= n - 1,
                    out@ == mid + mods.reverse().take(n - 1 - j).map_values(
                        |k: Key| (k, KeyDirection::Release),
                    ),
                decreases j,
            {
                out.push((keys[j - 1], KeyDirection::Release));
                assert(mods.reverse()[n - 1 - j] == keys@[j - 1]);
                assert(mods.reverse().take(n - j).map_values(|k: Key| (k, KeyDirection::Release))
                    =~= mods.reverse().take(n - 1 - j).map_values(
                    |k: Key| (k, KeyDirection::Release),
                ).push((keys@[j - 1], KeyDirection::Release)));
                j = j - 1;
            }
            assert(mods.reverse().take(n - 1) =~= mods.reverse());
            assert(final(out)@ =~= old(out)@ + strokes(a@));
        },
        Action::Sequence(v) => {
            let ghost xs = actions_view(v@);
            proof {
                lemma_actions_view(v@);
                assert(xs.take(0) =~= Seq::<ActionView>::empty());
                assert(out@ =~= old(out)@ + strokes_of_all(xs.take(0)));
            }
            let mut i: usize = 0;
            while i < v.len()
                invariant
                    i <= v@.len() == xs.len(),
                    xs == actions_view(v@),
                    all_runnable(xs),
                    forall|j: int| 0 <= j < v@.len() ==> #[trigger] xs[j] == v@[j]@,
                    out@ == old(out)@ + strokes_of_all(xs.take(i as int)),
                decreases v@.len() - i,
            {
                proof {
                    assert(decreases_to!(*a => *v));
                    assert(decreases_to!(*v => v@));
                    assert(decreases_to!(v@ => v@[i as int]));
                    lemma_all_runnable(xs, i as int);
                    lemma_strokes_of_all_take(xs, i as int);
                }
                assert(xs[i as int] == v@[i as int]@);
                push_strokes(&v[i], out);
                assert(out@ =~= old(out)@ + strokes_of_all(xs.take(i as int + 1)));
                i = i + 1;
            }
            assert(xs.take(v@.len() as int) =~= xs);
        },
    }
}

impl Action {
    /// Whether this action can be carried out: every chord in it has a main
    /// key.
    #[verifier::loop_isolation(false)]
    pub fn is_runnable(&self) -> (r: bool)
        ensures
            r == runnable(self@),
        decreases self,
    {
        match self {
            Action::KeyPress(_) => true,
            Action::KeyChord(ks) => ks.len() > 0,
            Action::Sequence(v) => {
                let ghost xs = actions_view(v@);
                proof {
                    lemma_actions_view(v@);
                    assert(xs.take(0) =~= Seq::<ActionView>::empty());
                }
                let mut i: usize = 0;
                while i < v.len()
                    invariant
                        i <= v@.len() == xs.len(),
                        xs == actions_view(v@),
                        forall|j: int| 0 <= j < v@.len() ==> #[trigger] xs[j] == v@[j]@,
                        all_runnable(xs.take(i as int)),
                    decreases v@.len() - i,
                {
                    proof {
                        assert(decreases_to!(*self => *v));
                        assert(decreases_to!(*v => v@));
                        assert(decreases_to!(v@ => v@[i as int]));
                        let t = xs.take(i as int + 1);
                        assert(t.subrange(0, t.len() - 1) =~= xs.take(i as int));
                    }
                    if !v[i].is_runnable() {
                        proof {
                            lemma_not_all_runnable(xs, i as int);
                        }
                        return false;
                    }
                    i = i + 1;
                }
                assert(xs.take(v@.len() as int) =~= xs);
                true
            },
        }
    }

    /// The keyboard events that carry out this action, in order.
    pub fn key_strokes(&self) -> (r: Vec<(Key, KeyDirection)>)
        requires
            runnable(self@),
        ensures
            r@ == strokes(self@),
    {
        let mut out: Vec<(Key, KeyDirection)> = Vec::new();
        push_strokes(self, &mut out);
        assert(out@ =~= strokes(self@));
        out
    }
}


broadcast use vstd::std_specs::hash::group_hash_axioms;

/// The bindings that a list of trigger-name/action-text pairs yields: each
/// pair whose name denotes a trigger key and whose text denotes an action
/// binds that key, a later pair over an earlier one for the same key; the
/// other pairs are left out.
pub open spec fn table_of(entries: Seq<(Seq<char>, Seq<char>)>) -> Map<(u32, ModifierFlags), ActionView>
    decreases entries.len(),
{
    if entries.len() == 0 {
        Map::empty()
    } else {
        let m = table_of(entries.drop_last());
        let (name, text) = entries.last();
        match (binding_of_name(name), action_of_text(text)) {
            (Some(b), Some(a)) => m.insert(b, a),
            _ => m,
        }
    }
}

/// The action bound to a trigger key: the binding for the exact modifier
/// flags, else, when some modifier is held, the binding without modifiers.
pub open spec fn lookup_in(m: Map<(u32, ModifierFlags), ActionView>, vk: u32, mods: ModifierFlags) -> Option<ActionView> {
    if m.contains_key((vk, mods)) {
        Some(m[(vk, mods)])
    } else if mods != MOD_NONE && m.contains_key((vk, MOD_NONE)) {
        Some(m[(vk, MOD_NONE)])
    } else {
        None
    }
}

/// The slot of a trigger key and its modifier flags in the table.
pub open spec fn slot(vk: u32, mods: ModifierFlags) -> u64 {
    (vk as int * 0x1_0000_0000 + mods as int) as u64
}

proof fn lemma_slot_injective(a: u32, b: u32, c: u32, d: u32)
    requires
        slot(a, b) == slot(c, d),
    ensures
        a == c && b == d,
{
    assert(a as int * 0x1_0000_0000 + b as int == c as int * 0x1_0000_0000 + d as int) by (nonlinear_arith)
        requires
            slot(a, b) == slot(c, d),
            0 <= a < 0x1_0000_0000,
            0 <= c < 0x1_0000_0000,
            0 <= b < 0x1_0000_0000,
            0 <= d < 0x1_0000_0000,
    ;
    assert(a == c && b == d) by (nonlinear_arith)
        requires
            a as int * 0x1_0000_0000 + b as int == c as int * 0x1_0000_0000 + d as int,
            0 <= b < 0x1_0000_0000,
            0 <= d < 0x1_0000_0000,
    ;
}

fn slot_of(vk: u32, mods: ModifierFlags) -> (r: u64)
    ensures
        r == slot(vk, mods),
{
    (vk as u64) * 0x1_0000_0000u64 + (mods as u64)
}

/// Trigger keys, with the modifier flags held, bound to actions.
pub struct MappingTable {
    table: HashMap<u64, Action>,
}

impl View for MappingTable {
    type V = Map<(u32, ModifierFlags), ActionView>;

    closed spec fn view(&self) -> Map<(u32, ModifierFlags), ActionView> {
        Map::new(
            |k: (u32, ModifierFlags)| self.table@.contains_key(slot(k.0, k.1)),
            |k: (u32, ModifierFlags)| self.table@[slot(k.0, k.1)]@,
        )
    }
}

impl MappingTable {
    /// The table of the bindings in `cursor_map`.
    #[verifier::spinoff_prover]
    pub fn from_cursor_mappings(cursor_map: &CursorMap) -> (r: MappingTable)
        ensures
            r@ == table_of(cursor_map@),
    {
        let entries = cursor_map.entries();
        let mut table: HashMap<u64, Action> = HashMap::new();
        let mut i: usize = 0;
        assert(pair_views(entries@).take(0) =~= Seq::<(Seq<char>, Seq<char>)>::empty());
        while i < entries.len()
            invariant
                i <= entries@.len(),
                pair_views(entries@) == cursor_map@,
                forall|k: (u32, ModifierFlags)|
                    #![trigger table_of(pair_views(entries@).take(i as int)).contains_key(k)]
                    table@.contains_key(slot(k.0, k.1)) == table_of(pair_views(entries@).take(i as int)).contains_key(k)
                    && (table@.contains_key(slot(k.0, k.1)) ==> table@[slot(k.0, k.1)]@ == table_of(
                        pair_views(entries@).take(i as int),
                    )[k]),
            decreases entries@.len() - i,
        {
            let ghost prev = pair_views(entries@).take(i as int);
            let ghost cur = pair_views(entries@).take(i as int + 1);
            assert(cur.drop_last() =~= prev);
            assert(cur.last() == (entries@[i as int].0@, entries@[i as int].1@));
            let b = char_to_vk(entries[i].0.as_str());
            let a = parse_action(entries[i].1.as_str());
            match (b, a) {
                (Some((vk, mods)), Some(action)) => {
                    let key: u64 = slot_of(vk, mods);
                    let ghost before = table@;
                    let ghost av = action@;
                    table.insert(key, action);
                    assert forall|k: (u32, ModifierFlags)|
                        #![trigger table_of(cur).contains_key(k)]
                        table@.contains_key(slot(k.0, k.1)) == table_of(cur).contains_key(k)
                        && (table@.contains_key(slot(k.0, k.1)) ==> table@[slot(k.0, k.1)]@ == table_of(cur)[k]) by {
                        if slot(k.0, k.1) == key {
                            lemma_slot_injective(k.0, k.1, vk, mods);
                        } else {
                            assert(table_of(prev).contains_key(k) == before.contains_key(slot(k.0, k.1)));
                        }
                    }
                },
                _ => {
                    assert forall|k: (u32, ModifierFlags)|
                        #![trigger table_of(cur).contains_key(k)]
                        table@.contains_key(slot(k.0, k.1)) == table_of(cur).contains_key(k)
                        && (table@.contains_key(slot(k.0, k.1)) ==> table@[slot(k.0, k.1)]@ == table_of(cur)[k]) by {
                        assert(table_of(prev).contains_key(k) == table@.contains_key(slot(k.0, k.1)));
                    }
                },
            }
            i = i + 1;
        }
        let r = MappingTable { table };
        assert(pair_views(entries@).take(entries@.len() as int) =~= pair_views(entries@));
        assert(r@ =~= table_of(cursor_map@)) by {
            assert forall|k: (u32, ModifierFlags)| #[trigger] r@.contains_key(k) == table_of(cursor_map@).contains_key(k) by {
                assert(table_of(pair_views(entries@).take(entries@.len() as int)).contains_key(k) == table@.contains_key(slot(k.0, k.1)));
            }
        }
        r
    }

    /// The action bound to a trigger key pressed with the modifier flags
    /// `mod_flags`: the exact binding first, else the binding of the key
    /// without modifiers.
    pub fn lookup(&self, vk: u32, mod_flags: ModifierFlags) -> (r: Option<Action>)
        ensures
            view_opt(r) == lookup_in(self@, vk, mod_flags),
    {
        let key: u64 = slot_of(vk, mod_flags);
        match self.table.get(&key) {
            Some(a) => {
                assert(self@.contains_key((vk, mod_flags)));
                return Some(a.duplicate());
            },
            None => {},
        }
        assert(!self@.contains_key((vk, mod_flags)));
        if mod_flags != MOD_NONE {
            let key0: u64 = slot_of(vk, MOD_NONE);
            match self.table.get(&key0) {
                Some(a) => {
                    assert(self@.contains_key((vk, MOD_NONE)));
                    Some(a.duplicate())
                },
                None => {
                    assert(!self@.contains_key((vk, MOD_NONE)));
                    None
                },
            }
        } else {
            None
        }
    }
}


proof fn lemma_parts_runnable(parts: Seq<Seq<char>>)
    ensures
        actions_of_parts(parts) matches Some(xs) ==> all_runnable(xs),
    decreases parts.len(),
{
    if parts.len() > 0 {
        lemma_parts_runnable(parts.drop_last());
        if let Some(xs) = actions_of_parts(parts) {
            let prev = actions_of_parts(parts.drop_last())->0;
            let x = single_action(trimmed(parts.last()))->0;
            assert(xs == prev.push(x));
            assert(runnable(x));
            assert(xs.subrange(0, xs.len() - 1) =~= prev);
        }
    }
}

/// Every action that an action text denotes can be carried out: its chords
/// have at least two keys, its sequences hold only such actions.
pub proof fn lemma_parsed_actions_runnable(s: Seq<char>)
    ensures
        action_of_text(s) matches Some(a) ==> runnable(a),
{
    lemma_parts_runnable(split_on(trimmed(s), ','));
}

/// Whitespace around an action text does not change the action it denotes.
pub proof fn lemma_action_text_ignores_outer_whitespace(s: Seq<char>)
    ensures
        action_of_text(trimmed(s)) == action_of_text(s),
        single_action(trimmed(s)) == single_action(s),
{
    lemma_trimmed_idempotent(s);
}

/// The keys held down after a run of keyboard events, starting from `held`
/// (innermost last): a press adds its key, a release must let go the key
/// pressed last (`None` otherwise), a click leaves the held keys as they are.
pub open spec fn held_after(s: Seq<(Key, KeyDirection)>, held: Seq<Key>) -> Option<Seq<Key>>
    decreases s.len(),
{
    if s.len() == 0 {
        Some(held)
    } else {
        let (k, d) = s[0];
        match d {
            KeyDirection::Press => held_after(s.drop_first(), held.push(k)),
            KeyDirection::Release => if held.len() > 0 && held.last() == k {
                held_after(s.drop_first(), held.drop_last())
            } else {
                None
            },
            KeyDirection::Click => held_after(s.drop_first(), held),
        }
    }
}

proof fn lemma_held_after_concat(s1: Seq<(Key, KeyDirection)>, s2: Seq<(Key, KeyDirection)>, held: Seq<Key>)
    ensures
        held_after(s1 + s2, held) == match held_after(s1, held) {
            Some(h) => held_after(s2, h),
            None => None,
        },
    decreases s1.len(),
{
    if s1.len() > 0 {
        assert((s1 + s2).drop_first() =~= s1.drop_first() + s2);
        assert((s1 + s2)[0] == s1[0]);
        let (k, d) = s1[0];
        match d {
            KeyDirection::Press => lemma_held_after_concat(s1.drop_first(), s2, held.push(k)),
            KeyDirection::Release => {
                if held.len() > 0 && held.last() == k {
                    lemma_held_after_concat(s1.drop_first(), s2, held.drop_last());
                }
            },
            KeyDirection::Click => lemma_held_after_concat(s1.drop_first(), s2, held),
        }
    } else {
        assert(s1 + s2 =~= s2);
    }
}

proof fn lemma_presses(mods: Seq<Key>, held: Seq<Key>)
    ensures
        held_after(mods.map_values(|k: Key| (k, KeyDirection::Press)), held) == Some(held + mods),
    decreases mods.len(),
{
    let p = mods.map_values(|k: Key| (k, KeyDirection::Press));
    if mods.len() == 0 {
        assert(held + mods =~= held);
    } else {
        assert(p.drop_first() =~= mods.drop_first().map_values(|k: Key| (k, KeyDirection::Press)));
        lemma_presses(mods.drop_first(), held.push(mods[0]));
        assert(held.push(mods[0]) + mods.drop_first() =~= held + mods);
    }
}

proof fn lemma_releases(mods: Seq<Key>, held: Seq<Key>)
    ensures
        held_after(mods.reverse().map_values(|k: Key| (k, KeyDirection::Release)), held + mods) == Some(held),
    decreases mods.len(),
{
    let r = mods.reverse().map_values(|k: Key| (k, KeyDirection::Release));
    if mods.len() == 0 {
        assert(held + mods =~= held);
    } else {
        let m = mods.drop_last();
        assert(r[0] == (mods.last(), KeyDirection::Release));
        assert((held + mods).last() == mods.last());
        assert((held + mods).drop_last() =~= held + m);
        assert(r.drop_first() =~= m.reverse().map_values(|k: Key| (k, KeyDirection::Release)));
        lemma_releases(m, held);
    }
}

proof fn lemma_chord_balanced(ks: Seq<Key>, held: Seq<Key>)
    requires
        ks.len() > 0,
    ensures
        held_after(chord_strokes(ks), held) == Some(held),
{
    let mods = ks.drop_last();
    let p = mods.map_values(|k: Key| (k, KeyDirection::Press));
    let c = seq![(ks.last(), KeyDirection::Click)];
    let r = mods.reverse().map_values(|k: Key| (k, KeyDirection::Release));
    lemma_held_after_concat(p + c, r, held);
    lemma_held_after_concat(p, c, held);
    lemma_presses(mods, held);
    assert(c.drop_first() =~= Seq::<(Key, KeyDirection)>::empty());
    assert(held_after(c.drop_first(), held + mods) == Some(held + mods));
    assert(held_after(c, held + mods) == Some(held + mods));
    lemma_releases(mods, held);
}

/// Carrying out an action that can be carried out leaves no key held: every
/// key pressed is let go, the last pressed first.
pub proof fn lemma_strokes_balanced(a: ActionView, held: Seq<Key>)
    requires
        runnable(a),
    ensures
        held_after(strokes(a), held) == Some(held),
    decreases a,
{
    match a {
        ActionView::KeyPress(k) => {
            let s = seq![(k, KeyDirection::Click)];
            assert(s.drop_first() =~= Seq::<(Key, KeyDirection)>::empty());
            assert(held_after(s.drop_first(), held) == Some(held));
        },
        ActionView::KeyChord(ks) => {
            lemma_chord_balanced(ks, held);
        },
        ActionView::Sequence(xs) => {
            assert(decreases_to!(a => xs));
            lemma_all_strokes_balanced(xs, held);
        },
    }
}

/// Carrying out actions that can be carried out, one after another, leaves
/// no key held.
pub proof fn lemma_all_strokes_balanced(xs: Seq<ActionView>, held: Seq<Key>)
    requires
        all_runnable(xs),
    ensures
        held_after(strokes_of_all(xs), held) == Some(held),
    decreases xs,
{
    if xs.len() > 0 {
        let front = xs.subrange(0, xs.len() - 1);
        assert(decreases_to!(xs => front));
        assert(decreases_to!(xs => xs[xs.len() - 1]));
        lemma_all_strokes_balanced(front, held);
        lemma_strokes_balanced(xs[xs.len() - 1], held);
        lemma_held_after_concat(strokes_of_all(front), strokes(xs[xs.len() - 1]), held);
    }
}

/// A trigger name and action text, bound in a list and not bound again to
/// the same key by a later pair, give the action in the table of the list,
/// and the lookup of that key with those modifiers gives it too.
pub proof fn lemma_table_binding(entries: Seq<(Seq<char>, Seq<char>)>, i: int)
    requires
        0 <= i < entries.len(),
        binding_of_name(entries[i].0) is Some,
        action_of_text(entries[i].1) is Some,
        forall|j: int|
            i < j < entries.len() ==> #[trigger] binding_of_name(entries[j].0) != binding_of_name(entries[i].0)
                || action_of_text(entries[j].1) is None,
    ensures
        ({
            let (vk, mods) = binding_of_name(entries[i].0)->0;
            &&& table_of(entries).contains_key((vk, mods))
            &&& table_of(entries)[(vk, mods)] == action_of_text(entries[i].1)->0
            &&& lookup_in(table_of(entries), vk, mods) == action_of_text(entries[i].1)
        }),
    decreases entries.len(),
{
    let b = binding_of_name(entries[i].0)->0;
    if i < entries.len() - 1 {
        let front = entries.drop_last();
        assert forall|j: int| i < j < front.len() implies #[trigger] binding_of_name(front[j].0)
            != binding_of_name(front[i].0) || action_of_text(front[j].1) is None by {
            assert(front[j] == entries[j]);
            assert(binding_of_name(entries[j].0) != binding_of_name(entries[i].0)
                || action_of_text(entries[j].1) is None);
        }
        assert(front[i] == entries[i]);
        lemma_table_binding(front, i);
        let last = entries.last();
        assert(binding_of_name(entries[entries.len() - 1].0) != binding_of_name(entries[i].0)
            || action_of_text(entries[entries.len() - 1].1) is None);
    }
}

/// What a lookup gives under held modifiers: the binding for exactly those
/// modifiers where there is one; where there is none and some modifier is
/// held, the binding of the key without modifiers, so that an unmodified
/// binding stays in force whatever else is held; and nothing where neither
/// exists. Without modifiers only the unmodified binding counts.
pub proof fn lemma_lookup_falls_back(m: Map<(u32, ModifierFlags), ActionView>, vk: u32, mods: ModifierFlags)
    ensures
        m.contains_key((vk, mods)) ==> lookup_in(m, vk, mods) == Some(m[(vk, mods)]),
        !m.contains_key((vk, mods)) && m.contains_key((vk, MOD_NONE)) ==> lookup_in(m, vk, mods) == Some(
            m[(vk, MOD_NONE)],
        ),
        m.contains_key((vk, MOD_NONE)) ==> lookup_in(m, vk, mods) is Some,
        !m.contains_key((vk, mods)) && !m.contains_key((vk, MOD_NONE)) ==> lookup_in(m, vk, mods) is None,
        lookup_in(m, vk, mods) matches Some(a) ==> a == m[(vk, mods)] || a == m[(vk, MOD_NONE)],
{
}

} // verus!
