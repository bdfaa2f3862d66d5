//! MIDI bindings: which key triggers which transport action, and how a key is
//! learned.
use vstd::prelude::*;
use vstd::string::*;

use crate::action::Action;
use crate::text::decimal_text;
#[allow(unused_imports)]
use crate::text::decimal;

verus! {

/// A MIDI binding is matched on the first two bytes (status + note/CC number),
/// ignoring velocity so the same physical key always maps to one action.
pub type MidiKey = [u8; 2];

/// A key together with the action that it triggers.
pub type Binding = (MidiKey, Action);

/// What an incoming message led to.
#[derive(Clone, Copy, PartialEq, Eq, Debug, Structural)]
pub enum MidiOutcome {
    /// The message is no trigger, or its key has no binding.
    Ignored,
    /// The key was captured as the binding of the action being learned.
    Learned,
    /// The key is bound to this action, which is to be dispatched.
    Trigger(Action),
}

/// The bindings, shared between the MIDI input and the user interface.
#[derive(Debug)]
pub struct MidiBindings {
    /// When set, the next incoming trigger is captured as this action's binding
    /// ("MIDI learn") instead of being dispatched.
    pub learning: Option<Action>,
    pub map: Vec<Binding>,
}

/// The action of the first binding with this key.
pub open spec fn action_for(map: Seq<Binding>, key: MidiKey) -> Option<Action>
    decreases map.len(),
{
    if map.len() == 0 {
        None
    } else if map[0].0 == key {
        Some(map[0].1)
    } else {
        action_for(map.drop_first(), key)
    }
}

/// The key of the first binding of this action.
pub open spec fn key_for(map: Seq<Binding>, action: Action) -> Option<MidiKey>
    decreases map.len(),
{
    if map.len() == 0 {
        None
    } else if map[0].1 == action {
        Some(map[0].0)
    } else {
        key_for(map.drop_first(), action)
    }
}

/// The bindings of any action but this one.
pub open spec fn of_another_action(action: Action) -> spec_fn(Binding) -> bool {
    |b: Binding| b.1 != action
}

/// The bindings that share neither this key nor this action.
pub open spec fn apart_from(key: MidiKey, action: Action) -> spec_fn(Binding) -> bool {
    |b: Binding| b.1 != action && b.0 != key
}

/// The bindings of all actions but one.
pub open spec fn cleared(map: Seq<Binding>, action: Action) -> Seq<Binding> {
    map.filter(of_another_action(action))
}

/// The bindings after `key` was captured for `action`: those that share neither
/// the key nor the action, in their order, and then the new one.
pub open spec fn learned(map: Seq<Binding>, key: MidiKey, action: Action) -> Seq<Binding> {
    map.filter(apart_from(key, action)).push((key, action))
}

/// Whether a key maps to at most one action and an action to at most one key.
pub open spec fn one_to_one(map: Seq<Binding>) -> bool {
    forall|i: int, j: int|
        0 <= i < j < map.len() ==> (#[trigger] map[i]).0 != (#[trigger] map[j]).0 && map[i].1
            != map[j].1
}

/// Whether a message is a note-on with non-zero velocity or a control change
/// with a non-zero value, on any channel.
pub open spec fn is_trigger(msg: Seq<u8>) -> bool {
    &&& msg.len() >= 3
    &&& 0x90 <= msg[0] <= 0x9F || 0xB0 <= msg[0] <= 0xBF
    &&& msg[2] > 0
}

/// The key that a message is matched on.
pub open spec fn key_of(msg: Seq<u8>) -> MidiKey {
    [msg[0], msg[1]]
}

/// What a message leads to, with these bindings.
pub open spec fn midi_outcome(
    learning: Option<Action>,
    map: Seq<Binding>,
    msg: Seq<u8>,
) -> MidiOutcome {
    if !is_trigger(msg) {
        MidiOutcome::Ignored
    } else if learning is Some {
        MidiOutcome::Learned
    } else {
        match action_for(map, key_of(msg)) {
            Some(action) => MidiOutcome::Trigger(action),
            None => MidiOutcome::Ignored,
        }
    }
}

fn same_key(a: MidiKey, b: MidiKey) -> (r: bool)
    ensures
        r == (a == b),
{
    let r = a[0] == b[0] && a[1] == b[1];
    if r {
        assert(a =~= b);
    }
    r
}

impl Default for MidiBindings {
    /// No bindings, and none being learned.
    fn default() -> (r: Self)
        ensures
            r.learning is None,
            r.map@ == Seq::<Binding>::empty(),
    {
        MidiBindings { learning: None, map: Vec::new() }
    }
}

impl MidiBindings {
    /// The key bound to an action, if there is one.
    pub fn binding_for(&self, action: Action) -> (r: Option<MidiKey>)
        ensures
            r == key_for(self.map@, action),
    {
        assert(self.map@.skip(0) =~= self.map@);
        for i in 0..self.map.len()
            invariant
                key_for(self.map@, action) == key_for(self.map@.skip(i as int), action),
        {
            let (key, bound) = self.map[i];
            if bound == action {
                return Some(key);
            }
            assert(self.map@.skip(i as int).drop_first() =~= self.map@.skip(i + 1));
        }
        None
    }

    /// The action bound to a key, if there is one.
    pub fn action_for(&self, key: MidiKey) -> (r: Option<Action>)
        ensures
            r == action_for(self.map@, key),
    {
        assert(self.map@.skip(0) =~= self.map@);
        for i in 0..self.map.len()
            invariant
                action_for(self.map@, key) == action_for(self.map@.skip(i as int), key),
        {
            let (bound, action) = self.map[i];
            if same_key(bound, key) {
                return Some(action);
            }
            assert(self.map@.skip(i as int).drop_first() =~= self.map@.skip(i + 1));
        }
        None
    }

    /// Removes every binding of an action.
    pub fn clear(&mut self, action: Action)
        ensures
            final(self).map@ == cleared(old(self).map@, action),
            final(self).learning == old(self).learning,
            one_to_one(old(self).map@) ==> one_to_one(final(self).map@),
    {
        let ghost keep = of_another_action(action);
        let mut kept: Vec<Binding> = Vec::new();
        for i in 0..self.map.len()
            invariant
                self.map@ == old(self).map@,
                keep == of_another_action(action),
                kept@ == self.map@.take(i as int).filter(keep),
        {
            reveal(Seq::filter);
            let (key, bound) = self.map[i];
            assert(self.map@.take(i + 1).drop_last() =~= self.map@.take(i as int));
            if bound != action {
                kept.push((key, bound));
            }
        }
        assert(self.map@.take(self.map@.len() as int) =~= self.map@);
        proof {
            if one_to_one(self.map@) {
                lemma_filter_one_to_one(self.map@, keep);
            }
        }
        self.map = kept;
    }

    /// Binds a key to an action; both lose the bindings they had.
    pub fn learn(&mut self, key: MidiKey, action: Action)
        ensures
            final(self).map@ == learned(old(self).map@, key, action),
            final(self).learning == old(self).learning,
            one_to_one(old(self).map@) ==> one_to_one(final(self).map@),
    {
        let ghost keep = apart_from(key, action);
        let mut kept: Vec<Binding> = Vec::new();
        for i in 0..self.map.len()
            invariant
                self.map@ == old(self).map@,
                keep == apart_from(key, action),
                kept@ == self.map@.take(i as int).filter(keep),
        {
            reveal(Seq::filter);
            let (bound, other) = self.map[i];
            assert(self.map@.take(i + 1).drop_last() =~= self.map@.take(i as int));
            if other != action && !same_key(bound, key) {
                kept.push((bound, other));
            }
        }
        assert(self.map@.take(self.map@.len() as int) =~= self.map@);
        kept.push((key, action));
        proof {
            if one_to_one(self.map@) {
                lemma_learn_keeps_one_to_one(self.map@, key, action);
            }
        }
        self.map = kept;
    }

    /// The "Learn" button of an action: starts learning it, or stops where it is
    /// the one being learned.
    pub fn toggle_learning(&mut self, action: Action)
        ensures
            final(self).learning == (if old(self).learning == Some(action) {
                None
            } else {
                Some(action)
            }),
            final(self).map == old(self).map,
    {
        self.learning = match self.learning {
            Some(current) if current == action => None,
            _ => Some(action),
        };
    }
}

/// Handles a raw MIDI message. Note-on (0x9n) with non-zero velocity and
/// control-change (0xBn) with non-zero value count as "triggers"; everything
/// else (including note-off / note-on velocity 0) is ignored so a key press
/// fires exactly once.
pub fn handle_midi(msg: &[u8], bindings: &mut MidiBindings) -> (r: MidiOutcome)
    ensures
        r == midi_outcome(old(bindings).learning, old(bindings).map@, msg@),
        r is Learned ==> {
            &&& final(bindings).learning is None
            &&& final(bindings).map@ == learned(
                old(bindings).map@,
                key_of(msg@),
                old(bindings).learning->0,
            )
        },
        !(r is Learned) ==> *final(bindings) == *old(bindings),
        one_to_one(old(bindings).map@) ==> one_to_one(final(bindings).map@),
{
    if msg.len() < 3 {
        return MidiOutcome::Ignored;
    }
    let first = msg[0];
    let status = first & 0xF0;
    proof {
        assert(first & 0xF0 == 0x90 <==> 0x90 <= first <= 0x9F) by (bit_vector);
        assert(first & 0xF0 == 0xB0 <==> 0xB0 <= first <= 0xBF) by (bit_vector);
    }
    let is_trigger = (status == 0x90 || status == 0xB0) && msg[2] > 0;
    if !is_trigger {
        return MidiOutcome::Ignored;
    }
    let key: MidiKey = [msg[0], msg[1]];
    match bindings.learning {
        Some(action) => {
            bindings.learning = None;
            bindings.learn(key, action);
            MidiOutcome::Learned
        },
        None => match bindings.action_for(key) {
            Some(action) => MidiOutcome::Trigger(action),
            None => MidiOutcome::Ignored,
        },
    }
}

/// How the kind of a key is named.
pub open spec fn kind_name(status: u8) -> Seq<char> {
    if 0x90 <= status <= 0x9F {
        "Note"@
    } else if 0xB0 <= status <= 0xBF {
        "CC"@
    } else {
        "?"@
    }
}

/// How a key is shown: its kind, its number and its channel, counted from one.
pub open spec fn key_text(key: MidiKey) -> Seq<char> {
    kind_name(key[0]) + " "@ + decimal(key[1] as nat) + " (ch "@ + decimal(
        (key[0] % 16 + 1) as nat,
    ) + ")"@
}

pub fn fmt_key(key: MidiKey) -> (r: String)
    ensures
        r@ == key_text(key),
{
    let status = key[0];
    proof {
        assert(status & 0xF0 == 0x90 <==> 0x90 <= status <= 0x9F) by (bit_vector);
        assert(status & 0xF0 == 0xB0 <==> 0xB0 <= status <= 0xBF) by (bit_vector);
        assert(status & 0x0F == status % 16) by (bit_vector);
    }
    let kind = match status & 0xF0 {
        0x90 => "Note",
        0xB0 => "CC",
        _ => "?",
    };
    let channel = (status & 0x0F) + 1;
    kind.to_owned().concat(" ").concat(decimal_text(key[1] as usize).as_str()).concat(
        " (ch ",
    ).concat(decimal_text(channel as usize).as_str()).concat(")")
}

/// Dropping bindings keeps the rest one-to-one.
proof fn lemma_filter_one_to_one(map: Seq<Binding>, keep: spec_fn(Binding) -> bool)
    requires
        one_to_one(map),
    ensures
        one_to_one(map.filter(keep)),
    decreases map.len(),
{
    reveal(Seq::filter);
    if map.len() > 0 {
        let rest = map.drop_last();
        assert(one_to_one(rest)) by {
            assert forall|i: int, j: int| 0 <= i < j < rest.len() implies (#[trigger] rest[i]).0 != (
            #[trigger] rest[j]).0 && rest[i].1 != rest[j].1 by {
                assert(rest[i] == map[i] && rest[j] == map[j]);
            }
        }
        lemma_filter_one_to_one(rest, keep);
        let kept = rest.filter(keep);
        assert forall|i: int| 0 <= i < kept.len() implies (#[trigger] kept[i]).0 != map.last().0
            && kept[i].1 != map.last().1 by {
            assert(kept.contains(kept[i]));
            rest.lemma_filter_contains_rev(keep, kept[i]);
            let k = choose|k: int| 0 <= k < rest.len() && rest[k] == kept[i];
            assert(map[k] == kept[i]);
        }
    }
}

/// Learning keeps the bindings one-to-one: a key maps to one action, an action
/// to one key.
pub proof fn lemma_learn_keeps_one_to_one(map: Seq<Binding>, key: MidiKey, action: Action)
    requires
        one_to_one(map),
    ensures
        one_to_one(learned(map, key, action)),
{
    let keep = apart_from(key, action);
    lemma_filter_one_to_one(map, keep);
    lemma_learn_drops(map, key, action);
}

/// Before the new binding stands none of its key or its action.
proof fn lemma_learn_drops(map: Seq<Binding>, key: MidiKey, action: Action)
    ensures
        forall|i: int|
            0 <= i < learned(map, key, action).len() - 1 ==> (#[trigger] learned(
                map,
                key,
                action,
            )[i]).0 != key && learned(map, key, action)[i].1 != action,
{
    let keep = apart_from(key, action);
    let kept = map.filter(keep);
    assert forall|i: int| 0 <= i < kept.len() implies (#[trigger] kept[i]).0 != key && kept[i].1
        != action by {
        map.lemma_filter_pred(keep, i);
    }
    assert(learned(map, key, action) == kept.push((key, action)));
}

/// A binding that follows only others is the one that is found.
proof fn lemma_find_last(map: Seq<Binding>, key: MidiKey, action: Action)
    requires
        map.len() > 0,
        map.last() == (key, action),
        forall|i: int| 0 <= i < map.len() - 1 ==> (#[trigger] map[i]).0 != key && map[i].1 != action,
    ensures
        action_for(map, key) == Some(action),
        key_for(map, action) == Some(key),
    decreases map.len(),
{
    if map.len() > 1 {
        let rest = map.drop_first();
        assert forall|i: int| 0 <= i < rest.len() - 1 implies (#[trigger] rest[i]).0 != key
            && rest[i].1 != action by {
            assert(rest[i] == map[i + 1]);
        }
        assert(map[0].0 != key && map[0].1 != action);
        lemma_find_last(rest, key, action);
    }
}

/// Whatever was bound before, a learned key triggers its action, and the action
/// is shown with that key.
pub proof fn lemma_learned_is_found(map: Seq<Binding>, key: MidiKey, action: Action)
    ensures
        action_for(learned(map, key, action), key) == Some(action),
        key_for(learned(map, key, action), action) == Some(key),
{
    lemma_learn_drops(map, key, action);
    lemma_find_last(learned(map, key, action), key, action);
}

/// Filtering keeps the first binding or drops it, and filters the rest.
proof fn lemma_filter_front(map: Seq<Binding>, keep: spec_fn(Binding) -> bool)
    requires
        map.len() > 0,
    ensures
        map.filter(keep) == if keep(map[0]) {
            seq![map[0]] + map.drop_first().filter(keep)
        } else {
            map.drop_first().filter(keep)
        },
{
    let head = seq![map[0]];
    assert(head + map.drop_first() =~= map);
    Seq::filter_distributes_over_add(head, map.drop_first(), keep);
    reveal_with_fuel(Seq::filter, 2);
    assert(head.drop_last().filter(keep) =~= Seq::empty());
    assert(head.filter(keep) =~= if keep(map[0]) {
        head
    } else {
        Seq::empty()
    });
}

/// Finding by action is not changed by dropping bindings, as long as the one
/// that is found stays.
proof fn lemma_key_for_filter(map: Seq<Binding>, keep: spec_fn(Binding) -> bool, action: Action)
    requires
        key_for(map, action) matches Some(key) ==> keep((key, action)),
    ensures
        key_for(map.filter(keep), action) == key_for(map, action),
    decreases map.len(),
{
    if map.len() == 0 {
        reveal(Seq::filter);
    } else {
        let rest = map.drop_first();
        lemma_filter_front(map, keep);
        if map[0].1 != action {
            lemma_key_for_filter(rest, keep, action);
            assert((seq![map[0]] + rest.filter(keep)).drop_first() =~= rest.filter(keep));
        } else {
            assert(map[0] == (map[0].0, action));
        }
    }
}

/// Finding by key is not changed by dropping bindings, as long as the one that
/// is found stays.
proof fn lemma_action_for_filter(map: Seq<Binding>, keep: spec_fn(Binding) -> bool, key: MidiKey)
    requires
        action_for(map, key) matches Some(action) ==> keep((key, action)),
    ensures
        action_for(map.filter(keep), key) == action_for(map, key),
    decreases map.len(),
{
    if map.len() == 0 {
        reveal(Seq::filter);
    } else {
        let rest = map.drop_first();
        lemma_filter_front(map, keep);
        if map[0].0 != key {
            lemma_action_for_filter(rest, keep, key);
            assert((seq![map[0]] + rest.filter(keep)).drop_first() =~= rest.filter(keep));
        } else {
            assert(map[0] == (key, map[0].1));
        }
    }
}

/// A further binding is not found for another action, nor for another key.
proof fn lemma_push_apart(map: Seq<Binding>, last: Binding, key: MidiKey, action: Action)
    ensures
        last.1 != action ==> key_for(map.push(last), action) == key_for(map, action),
        last.0 != key ==> action_for(map.push(last), key) == action_for(map, key),
    decreases map.len(),
{
    if map.len() == 0 {
        assert(map.push(last).drop_first() =~= map);
    } else {
        lemma_push_apart(map.drop_first(), last, key, action);
        assert(map.push(last).drop_first() =~= map.drop_first().push(last));
    }
}

/// Learning leaves alone what it has no part in: another action keeps its key
/// unless that very key was captured, and another key keeps its action unless
/// that action was given a new key.
pub proof fn lemma_learn_keeps_others(
    map: Seq<Binding>,
    key: MidiKey,
    action: Action,
    other_key: MidiKey,
    other_action: Action,
)
    ensures
        other_action != action && key_for(map, other_action) != Some(key) ==> key_for(
            learned(map, key, action),
            other_action,
        ) == key_for(map, other_action),
        other_key != key && action_for(map, other_key) != Some(action) ==> action_for(
            learned(map, key, action),
            other_key,
        ) == action_for(map, other_key),
{
    let keep = apart_from(key, action);
    lemma_push_apart(map.filter(keep), (key, action), other_key, other_action);
    if other_action != action && key_for(map, other_action) != Some(key) {
        lemma_key_for_filter(map, keep, other_action);
    }
    if other_key != key && action_for(map, other_key) != Some(action) {
        lemma_action_for_filter(map, keep, other_key);
    }
}

/// Nothing of an action is found in bindings that hold none of it.
proof fn lemma_key_for_absent(map: Seq<Binding>, action: Action)
    requires
        forall|i: int| 0 <= i < map.len() ==> (#[trigger] map[i]).1 != action,
    ensures
        key_for(map, action) is None,
    decreases map.len(),
{
    if map.len() > 0 {
        let rest = map.drop_first();
        assert forall|i: int| 0 <= i < rest.len() implies (#[trigger] rest[i]).1 != action by {
            assert(rest[i] == map[i + 1]);
        }
        assert(map[0].1 != action);
        lemma_key_for_absent(rest, action);
    }
}

/// A cleared action has no key; every other action keeps the one it had.
pub proof fn lemma_clear(map: Seq<Binding>, action: Action, other: Action)
    ensures
        key_for(cleared(map, action), action) is None,
        other != action ==> key_for(cleared(map, action), other) == key_for(map, other),
{
    let keep = of_another_action(action);
    let kept = map.filter(keep);
    assert forall|i: int| 0 <= i < kept.len() implies (#[trigger] kept[i]).1 != action by {
        map.lemma_filter_pred(keep, i);
    }
    lemma_key_for_absent(kept, action);
    if other != action {
        lemma_key_for_filter(map, keep, other);
    }
}

/// Velocity does not matter: two triggers of one physical key lead to the same.
pub proof fn lemma_velocity_ignored(
    learning: Option<Action>,
    map: Seq<Binding>,
    msg1: Seq<u8>,
    msg2: Seq<u8>,
)
    requires
        is_trigger(msg1),
        is_trigger(msg2),
        msg1[0] == msg2[0],
        msg1[1] == msg2[1],
    ensures
        key_of(msg1) == key_of(msg2),
        midi_outcome(learning, map, msg1) == midi_outcome(learning, map, msg2),
{
    assert(key_of(msg1) =~= key_of(msg2));
}

/// Releasing a key fires nothing: a note-off, or a note-on with velocity zero,
/// is ignored.
pub proof fn lemma_release_ignored(learning: Option<Action>, map: Seq<Binding>, msg: Seq<u8>)
    requires
        msg.len() >= 3,
        0x80 <= msg[0] <= 0x8F || (0x90 <= msg[0] <= 0x9F && msg[2] == 0),
    ensures
        midi_outcome(learning, map, msg) is Ignored,
{
}

/// While an action is being learned, no message is dispatched; and once a
/// trigger was captured, the same message dispatches the learned action.
pub proof fn lemma_learn_then_trigger(action: Action, map: Seq<Binding>, msg: Seq<u8>)
    requires
        is_trigger(msg),
    ensures
        midi_outcome(Some(action), map, msg) is Learned,
        midi_outcome(None, learned(map, key_of(msg), action), msg) == MidiOutcome::Trigger(action),
{
    lemma_learned_is_found(map, key_of(msg), action);
}

} // verus!
