//! Laws of MIDI bindings and messages.
use vstd::prelude::*;

use crate::action::Action;
use crate::midi::{fmt_key, handle_midi, Binding, MidiBindings, MidiKey, MidiOutcome};
#[allow(unused_imports)]
use crate::midi::{action_for, apart_from, key_for, key_of, learned, of_another_action};
#[allow(unused_imports)]
use crate::text::decimal;

verus! {

/// The action that is found for a key is that of the first binding with this key.
proof fn lemma_first_of_key(map: Seq<Binding>, key: MidiKey, i: int)
    requires
        0 <= i < map.len(),
        map[i].0 == key,
        forall|j: int| 0 <= j < i ==> (#[trigger] map[j]).0 != key,
    ensures
        action_for(map, key) == Some(map[i].1),
    decreases map.len(),
{
    if i > 0 {
        assert(map[0].0 != key);
        let rest = map.drop_first();
        assert forall|j: int| 0 <= j < i - 1 implies (#[trigger] rest[j]).0 != key by {
            assert(rest[j] == map[j + 1]);
        }
        lemma_first_of_key(rest, key, i - 1);
    }
}

/// Nothing is found for a key without a binding.
proof fn lemma_none_of_key(map: Seq<Binding>, key: MidiKey)
    requires
        forall|j: int| 0 <= j < map.len() ==> (#[trigger] map[j]).0 != key,
    ensures
        action_for(map, key) is None,
    decreases map.len(),
{
    if map.len() > 0 {
        assert(map[0].0 != key);
        let rest = map.drop_first();
        assert forall|j: int| 0 <= j < rest.len() implies (#[trigger] rest[j]).0 != key by {
            assert(rest[j] == map[j + 1]);
        }
        lemma_none_of_key(rest, key);
    }
}

/// The key that is found for an action is that of its first binding.
proof fn lemma_first_of_action(map: Seq<Binding>, action: Action, i: int)
    requires
        0 <= i < map.len(),
        map[i].1 == action,
        forall|j: int| 0 <= j < i ==> (#[trigger] map[j]).1 != action,
    ensures
        key_for(map, action) == Some(map[i].0),
    decreases map.len(),
{
    if i > 0 {
        assert(map[0].1 != action);
        let rest = map.drop_first();
        assert forall|j: int| 0 <= j < i - 1 implies (#[trigger] rest[j]).1 != action by {
            assert(rest[j] == map[j + 1]);
        }
        lemma_first_of_action(rest, action, i - 1);
    }
}

/// Nothing is found for an action without a binding.
proof fn lemma_none_of_action(map: Seq<Binding>, action: Action)
    requires
        forall|j: int| 0 <= j < map.len() ==> (#[trigger] map[j]).1 != action,
    ensures
        key_for(map, action) is None,
    decreases map.len(),
{
    if map.len() > 0 {
        assert(map[0].1 != action);
        let rest = map.drop_first();
        assert forall|j: int| 0 <= j < rest.len() implies (#[trigger] rest[j]).1 != action by {
            assert(rest[j] == map[j + 1]);
        }
        lemma_none_of_action(rest, action);
    }
}

/// The key of an action is that of its first binding, wherever that stands.
pub proof fn lemma_binding_for(b: MidiBindings, action: Action, r: Option<MidiKey>, i: int)
    requires
        call_ensures(MidiBindings::binding_for, (&b, action), r),
    ensures
        0 <= i < b.map@.len() && b.map@[i].1 == action && (forall|j: int|
            0 <= j < i ==> (#[trigger] b.map@[j]).1 != action) ==> r == Some(b.map@[i].0),
        (forall|j: int| 0 <= j < b.map@.len() ==> (#[trigger] b.map@[j]).1 != action) ==> r is None,
{
    if 0 <= i < b.map@.len() && b.map@[i].1 == action && (forall|j: int|
        0 <= j < i ==> (#[trigger] b.map@[j]).1 != action) {
        lemma_first_of_action(b.map@, action, i);
    }
    if forall|j: int| 0 <= j < b.map@.len() ==> (#[trigger] b.map@[j]).1 != action {
        lemma_none_of_action(b.map@, action);
    }
}

/// The action of a key is that of its first binding, wherever that stands.
pub proof fn lemma_action_for(b: MidiBindings, key: MidiKey, r: Option<Action>, i: int)
    requires
        call_ensures(MidiBindings::action_for, (&b, key), r),
    ensures
        0 <= i < b.map@.len() && b.map@[i].0 == key && (forall|j: int|
            0 <= j < i ==> (#[trigger] b.map@[j]).0 != key) ==> r == Some(b.map@[i].1),
        (forall|j: int| 0 <= j < b.map@.len() ==> (#[trigger] b.map@[j]).0 != key) ==> r is None,
{
    if 0 <= i < b.map@.len() && b.map@[i].0 == key && (forall|j: int|
        0 <= j < i ==> (#[trigger] b.map@[j]).0 != key) {
        lemma_first_of_key(b.map@, key, i);
    }
    if forall|j: int| 0 <= j < b.map@.len() ==> (#[trigger] b.map@[j]).0 != key {
        lemma_none_of_key(b.map@, key);
    }
}

/// Two bytes are the key of a message where they are its first two.
proof fn lemma_key_bytes(msg: Seq<u8>, key: MidiKey)
    ensures
        key_of(msg) == key <==> key[0] == msg[0] && key[1] == msg[1],
{
    if key[0] == msg[0] && key[1] == msg[1] {
        assert(key_of(msg) =~= key);
    }
}

/// A message is ignored, and the bindings stay as they are, where it has fewer
/// than three bytes, where it is neither a note-on nor a control change, and
/// where its value is zero.
pub proof fn lemma_other_messages_ignored(msg: &[u8], b: &mut MidiBindings, r: MidiOutcome)
    requires
        call_ensures(handle_midi, (msg, b), r),
        msg@.len() < 3 || msg@[2] == 0 || msg@[0] < 0x90 || 0x9F < msg@[0] < 0xB0 || 0xBF < msg@[0],
    ensures
        r is Ignored,
        *final(b) == *old(b),
{
}

/// While an action is being learned, every note-on and every control change with
/// a value, whatever that value and on whatever channel, is captured: its first
/// two bytes are bound to that action as the last binding, no earlier binding has
/// that key or that action, and every binding of another key and another action
/// is kept, in its order.
pub proof fn lemma_every_trigger_is_learned(
    msg: &[u8],
    b: &mut MidiBindings,
    r: MidiOutcome,
    action: Action,
)
    requires
        call_ensures(handle_midi, (msg, b), r),
        msg@.len() >= 3,
        0x90 <= msg@[0] <= 0x9F || 0xB0 <= msg@[0] <= 0xBF,
        msg@[2] != 0,
        old(b).learning == Some(action),
    ensures
        r is Learned,
        final(b).learning is None,
        final(b).map@.len() > 0,
        final(b).map@.last().0[0] == msg@[0],
        final(b).map@.last().0[1] == msg@[1],
        final(b).map@.last().1 == action,
        forall|i: int|
            0 <= i < final(b).map@.len() - 1 ==> (#[trigger] final(b).map@[i]).0
                != final(b).map@.last().0 && final(b).map@[i].1 != action,
        forall|x: Binding|
            x.0 != final(b).map@.last().0 && x.1 != action ==> (#[trigger] old(b).map@.contains(x)
                <==> final(b).map@.contains(x)),
        final(b).map@.drop_last() == old(b).map@.filter(
            |x: Binding| x.0 != final(b).map@.last().0 && x.1 != action,
        ),
{
    let key = key_of(msg@);
    lemma_learned_bindings(old(b).map@, key, action);
    assert((|x: Binding| x.0 != final(b).map@.last().0 && x.1 != action) =~= (|x: Binding|
        x.0 != key && x.1 != action));
}

/// While nothing is being learned, every note-on and every control change with a
/// value, whatever that value and on whatever channel, triggers the action of the
/// first binding whose two bytes are the first two of the message; where there is
/// none it is ignored. The bindings stay as they are.
pub proof fn lemma_every_bound_trigger_fires(
    msg: &[u8],
    b: &mut MidiBindings,
    r: MidiOutcome,
    i: int,
)
    requires
        call_ensures(handle_midi, (msg, b), r),
        msg@.len() >= 3,
        0x90 <= msg@[0] <= 0x9F || 0xB0 <= msg@[0] <= 0xBF,
        msg@[2] != 0,
        old(b).learning is None,
    ensures
        0 <= i < old(b).map@.len() && old(b).map@[i].0[0] == msg@[0] && old(b).map@[i].0[1]
            == msg@[1] && (forall|j: int|
            0 <= j < i ==> (#[trigger] old(b).map@[j]).0[0] != msg@[0] || old(b).map@[j].0[1]
                != msg@[1]) ==> r == MidiOutcome::Trigger(old(b).map@[i].1),
        (forall|j: int|
            0 <= j < old(b).map@.len() ==> (#[trigger] old(b).map@[j]).0[0] != msg@[0]
                || old(b).map@[j].0[1] != msg@[1]) ==> r is Ignored,
        *final(b) == *old(b),
{
    let map = old(b).map@;
    let key = key_of(msg@);
    if 0 <= i < map.len() && map[i].0[0] == msg@[0] && map[i].0[1] == msg@[1] && (forall|j: int|
        0 <= j < i ==> (#[trigger] map[j]).0[0] != msg@[0] || map[j].0[1] != msg@[1]) {
        lemma_key_bytes(msg@, map[i].0);
        assert forall|j: int| 0 <= j < i implies (#[trigger] map[j]).0 != key by {
            lemma_key_bytes(msg@, map[j].0);
        }
        lemma_first_of_key(map, key, i);
    }
    if forall|j: int|
        0 <= j < map.len() ==> (#[trigger] map[j]).0[0] != msg@[0] || map[j].0[1] != msg@[1] {
        assert forall|j: int| 0 <= j < map.len() implies (#[trigger] map[j]).0 != key by {
            lemma_key_bytes(msg@, map[j].0);
        }
        lemma_none_of_key(map, key);
    }
}

/// What learning makes of the bindings.
proof fn lemma_learned_bindings(map: Seq<Binding>, key: MidiKey, action: Action)
    ensures
        ({
            let after = learned(map, key, action);
            &&& after.len() > 0
            &&& after.last() == (key, action)
            &&& forall|i: int|
                0 <= i < after.len() - 1 ==> (#[trigger] after[i]).0 != key && after[i].1 != action
            &&& forall|x: Binding|
                x.0 != key && x.1 != action ==> (#[trigger] map.contains(x) <==> after.contains(x))
            &&& after.drop_last() == map.filter(|x: Binding| x.0 != key && x.1 != action)
        }),
{
    let keep = apart_from(key, action);
    let kept = map.filter(keep);
    let after = learned(map, key, action);
    assert(keep =~= (|x: Binding| x.0 != key && x.1 != action));
    assert(after =~= kept.push((key, action)));
    assert(after.drop_last() =~= kept);
    assert forall|i: int| 0 <= i < after.len() - 1 implies (#[trigger] after[i]).0 != key
        && after[i].1 != action by {
        map.lemma_filter_pred(keep, i);
    }
    assert forall|x: Binding| x.0 != key && x.1 != action implies (#[trigger] map.contains(x)
        <==> after.contains(x)) by {
        if map.contains(x) {
            let i = choose|i: int| 0 <= i < map.len() && map[i] == x;
            map.lemma_filter_contains(keep, i);
            let k = choose|k: int| 0 <= k < kept.len() && kept[k] == x;
            assert(after[k] == x);
        }
        if after.contains(x) {
            let k = choose|k: int| 0 <= k < after.len() && after[k] == x;
            assert(kept[k] == x);
            assert(kept.contains(x));
            map.lemma_filter_contains_rev(keep, x);
        }
    }
}

/// A learned binding stands last; before it stand, in their order, the bindings
/// that had neither its key nor its action, and no others.
pub proof fn lemma_learn(b: &mut MidiBindings, key: MidiKey, action: Action)
    requires
        call_ensures(MidiBindings::learn, (b, key, action), ()),
    ensures
        final(b).map@ == old(b).map@.filter(|x: Binding| x.0 != key && x.1 != action).push(
            (key, action),
        ),
        final(b).learning == old(b).learning,
{
    lemma_learned_bindings(old(b).map@, key, action);
    assert(final(b).map@ =~= final(b).map@.drop_last().push(final(b).map@.last()));
}

/// After clearing there are, in their order, the bindings of the other actions,
/// and no others.
pub proof fn lemma_cleared(b: &mut MidiBindings, action: Action)
    requires
        call_ensures(MidiBindings::clear, (b, action), ()),
    ensures
        final(b).map@ == old(b).map@.filter(|x: Binding| x.1 != action),
        forall|x: Binding| #[trigger]
            final(b).map@.contains(x) <==> old(b).map@.contains(x) && x.1 != action,
        final(b).learning == old(b).learning,
{
    let keep = of_another_action(action);
    let map = old(b).map@;
    assert(keep =~= (|x: Binding| x.1 != action));
    assert forall|x: Binding| #[trigger] final(b).map@.contains(x) <==> map.contains(x) && x.1
        != action by {
        if map.contains(x) && x.1 != action {
            let i = choose|i: int| 0 <= i < map.len() && map[i] == x;
            map.lemma_filter_contains(keep, i);
        }
        if map.filter(keep).contains(x) {
            map.lemma_filter_contains_rev(keep, x);
        }
    }
}

/// Asking to learn an action starts that, whatever was being learned, and asking
/// again stops it; the bindings stay as they are.
pub proof fn lemma_toggle(b: &mut MidiBindings, action: Action)
    requires
        call_ensures(MidiBindings::toggle_learning, (b, action), ()),
    ensures
        old(b).learning == Some(action) ==> final(b).learning is None,
        old(b).learning != Some(action) ==> final(b).learning == Some(action),
        final(b).map == old(b).map,
{
}

/// A fresh set of bindings is empty, and nothing is being learned.
pub proof fn lemma_default_is_empty(r: MidiBindings)
    requires
        call_ensures(<MidiBindings as Default>::default, (), r),
    ensures
        r.learning is None,
        r.map@.len() == 0,
{
}

/// A key is shown by its kind, its number and its channel, counted from one.
pub proof fn lemma_key_shown(key: MidiKey, r: String)
    requires
        call_ensures(fmt_key, (key,), r),
    ensures
        0x90 <= key[0] <= 0x9F ==> r@ == "Note"@ + " "@ + decimal(key[1] as nat) + " (ch "@
            + decimal((key[0] - 0x90 + 1) as nat) + ")"@,
        0xB0 <= key[0] <= 0xBF ==> r@ == "CC"@ + " "@ + decimal(key[1] as nat) + " (ch "@ + decimal(
            (key[0] - 0xB0 + 1) as nat,
        ) + ")"@,
        key[0] < 0x90 || 0x9F < key[0] < 0xB0 || 0xBF < key[0] ==> r@ == "?"@ + " "@ + decimal(
            key[1] as nat,
        ) + " (ch "@ + decimal((key[0] % 16 + 1) as nat) + ")"@,
{
}

/// What is shown for an action is that it is being listened for exactly where it
/// is the one being learned, else its key, if it has one.
pub proof fn lemma_binding_shown(
    b: MidiBindings,
    learning: Option<Action>,
    action: Action,
    key: Option<MidiKey>,
    key_shown: String,
    r: String,
)
    requires
        call_ensures(MidiBindings::binding_text, (&b, learning, action), r),
        call_ensures(MidiBindings::binding_for, (&b, action), key),
        key is Some ==> call_ensures(fmt_key, (key->0,), key_shown),
    ensures
        learning == Some(action) ==> r@ == "← listening…"@,
        learning != Some(action) && key is Some ==> r@ == key_shown@,
        learning != Some(action) && key is None ==> r@ == "unassigned"@,
{
}

} // verus!
