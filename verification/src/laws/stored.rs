//! Laws of stored bindings.
use serde_json::Value;
use vstd::prelude::*;

use crate::action::Action;
#[allow(unused_imports)]
use crate::json::{document, parsed, Json};
use crate::midi::Binding;
use crate::stored::{
    binding_from_fields, bindings_from_json, bindings_from_list, bindings_from_value,
    bindings_to_json, Fields,
};
#[allow(unused_imports)]
use crate::stored::{binding_of, record_of};

verus! {

/// Each action is stored under its own fixed identifier.
pub proof fn lemma_stored_identifiers(action: Action, r: &'static str)
    requires
        call_ensures(Action::key, (action,), r),
    ensures
        action is PlayPause ==> r@ == "play_pause"@,
        action is Stop ==> r@ == "stop"@,
        action is Next ==> r@ == "next"@,
        action is Prev ==> r@ == "prev"@,
{
}

/// The labels of the actions are fixed.
pub proof fn lemma_labels(action: Action, r: &'static str)
    requires
        call_ensures(Action::label, (action,), r),
    ensures
        action is PlayPause ==> r@ == "Play / Pause"@,
        action is Stop ==> r@ == "Stop"@,
        action is Next ==> r@ == "Next"@,
        action is Prev ==> r@ == "Previous"@,
{
}

/// Each identifier is read as its own action, and no other text as any.
pub proof fn lemma_identifiers_read(s: &str, r: Option<Action>)
    requires
        call_ensures(Action::from_key, (s,), r),
    ensures
        r == Some(Action::PlayPause) <==> s@ == "play_pause"@,
        r == Some(Action::Stop) <==> s@ == "stop"@,
        r == Some(Action::Next) <==> s@ == "next"@,
        r == Some(Action::Prev) <==> s@ == "prev"@,
{
    Action::lemma_key_round_trip(Action::PlayPause, s@);
    Action::lemma_key_round_trip(Action::Stop, s@);
    Action::lemma_key_round_trip(Action::Next, s@);
    Action::lemma_key_round_trip(Action::Prev, s@);
}

/// Fields stand for a binding exactly where all three were found and the action
/// is one of four: the numbers count by their low bytes, whatever they are.
pub proof fn lemma_fields_read(
    status: Option<u64>,
    data1: Option<u64>,
    action: Option<&str>,
    r: Option<Binding>,
)
    requires
        call_ensures(binding_from_fields, (status, data1, action), r),
    ensures
        r is Some <==> status is Some && data1 is Some && action is Some && (action->0@
            == "play_pause"@ || action->0@ == "stop"@ || action->0@ == "next"@ || action->0@
            == "prev"@),
        r matches Some(b) ==> {
            &&& b.0[0] == status->0 % 256
            &&& b.0[1] == data1->0 % 256
            &&& b.1 is PlayPause <==> action->0@ == "play_pause"@
            &&& b.1 is Stop <==> action->0@ == "stop"@
            &&& b.1 is Next <==> action->0@ == "next"@
            &&& b.1 is Prev <==> action->0@ == "prev"@
        },
{
    if action is Some {
        Action::lemma_key_round_trip(Action::PlayPause, action->0@);
        Action::lemma_key_round_trip(Action::Stop, action->0@);
        Action::lemma_key_round_trip(Action::Next, action->0@);
        Action::lemma_key_round_trip(Action::Prev, action->0@);
    }
}

/// Skipping what is not wanted of two sequences in a row is skipping it of each.
proof fn lemma_filter_map_concat<A, B>(a: Seq<A>, b: Seq<A>, f: spec_fn(A) -> Option<B>)
    ensures
        (a + b).filter_map(f) == a.filter_map(f) + b.filter_map(f),
    decreases b.len(),
{
    reveal(Seq::filter_map);
    if b.len() == 0 {
        assert(a + b =~= a);
        assert(a.filter_map(f) + b.filter_map(f) =~= a.filter_map(f));
    } else {
        lemma_filter_map_concat(a, b.drop_last(), f);
        assert((a + b).drop_last() =~= a + b.drop_last());
        assert((a + b).last() == b.last());
        assert((a + b).filter_map(f) =~= a.filter_map(f) + b.filter_map(f));
    }
}

/// What one element alone is mapped to.
proof fn lemma_filter_map_one<A, B>(s: Seq<A>, f: spec_fn(A) -> Option<B>)
    requires
        s.len() == 1,
    ensures
        f(s[0]) matches Some(x) ==> s.filter_map(f) == seq![x],
        f(s[0]) is None ==> s.filter_map(f) == Seq::<B>::empty(),
{
    reveal_with_fuel(Seq::filter_map, 2);
    assert(s.drop_last() =~= Seq::empty());
    assert(s.drop_last().filter_map(f) =~= Seq::empty());
    if f(s[0]) is Some {
        assert(s.filter_map(f) =~= seq![f(s[0])->0]);
    }
}

/// Fields are read one after the other: two lists in a row give the bindings of
/// the first and then those of the second.
pub proof fn lemma_list_read_in_order(
    first: &Vec<Fields>,
    second: &Vec<Fields>,
    both: &Vec<Fields>,
    r1: Vec<Binding>,
    r2: Vec<Binding>,
    r: Vec<Binding>,
)
    requires
        call_ensures(bindings_from_list, (first,), r1),
        call_ensures(bindings_from_list, (second,), r2),
        call_ensures(bindings_from_list, (both,), r),
        both@ == first@ + second@,
    ensures
        r@ == r1@ + r2@,
{
    lemma_filter_map_concat(first@, second@, |fields: Fields| fields.binding());
}

/// A list of one element gives the binding that its fields stand for, if they
/// stand for one; an empty list gives none.
pub proof fn lemma_list_of_one(
    list: &Vec<Fields>,
    r: Vec<Binding>,
    name: &str,
    one: Option<Binding>,
)
    requires
        call_ensures(bindings_from_list, (list,), r),
    ensures
        list@.len() == 0 ==> r@.len() == 0,
        list@.len() == 1 && list@[0].action is Some && list@[0].action->0@ == name@
            && call_ensures(
            binding_from_fields,
            (list@[0].status, list@[0].data1, Some(name)),
            one,
        ) ==> (one matches Some(b) ==> r@ == seq![b]) && (one is None ==> r@.len() == 0),
        list@.len() == 1 && list@[0].action is None ==> r@.len() == 0,
{
    reveal(Seq::filter_map);
    if list@.len() == 1 {
        lemma_filter_map_one(list@, |fields: Fields| fields.binding());
    }
}

/// A value that is no array holds no bindings, nor does an empty array.
pub proof fn lemma_no_array_no_bindings(value: &Value, r: Vec<Binding>)
    requires
        call_ensures(bindings_from_value, (value,), r),
        !(document(*value) is Array) || document(*value)->Array_0.len() == 0,
    ensures
        r@.len() == 0,
{
    reveal(Seq::filter_map);
}

/// An array is read one element after the other: what two arrays hold, their
/// elements hold in one array, in that order.
pub proof fn lemma_array_read_in_order(
    first: &Value,
    second: &Value,
    both: &Value,
    r1: Vec<Binding>,
    r2: Vec<Binding>,
    r: Vec<Binding>,
)
    requires
        call_ensures(bindings_from_value, (first,), r1),
        call_ensures(bindings_from_value, (second,), r2),
        call_ensures(bindings_from_value, (both,), r),
        document(*first) is Array,
        document(*second) is Array,
        document(*both) == Json::Array(document(*first)->Array_0 + document(*second)->Array_0),
    ensures
        r@ == r1@ + r2@,
{
    lemma_filter_map_concat(
        document(*first)->Array_0,
        document(*second)->Array_0,
        |item: Json| binding_of(item),
    );
}

/// An element holds a binding exactly where it is an object in which `status` and
/// `data1` are integers that are not negative and `action` is one of four texts,
/// whatever else it holds.
pub proof fn lemma_element_read(value: &Value, item: Json, r: Vec<Binding>)
    requires
        call_ensures(bindings_from_value, (value,), r),
        document(*value) == Json::Array(seq![item]),
    ensures
        ({
            let good = {
                &&& item is Object
                &&& item->Object_0.contains_key("status"@)
                &&& item->Object_0.contains_key("data1"@)
                &&& item->Object_0.contains_key("action"@)
                &&& item->Object_0["status"@] is Unsigned
                &&& item->Object_0["data1"@] is Unsigned
                &&& item->Object_0["action"@] is Text
                &&& ({
                    let name = item->Object_0["action"@]->Text_0;
                    name == "play_pause"@ || name == "stop"@ || name == "next"@ || name == "prev"@
                })
            };
            &&& !good ==> r@.len() == 0
            &&& good ==> {
                let name = item->Object_0["action"@]->Text_0;
                &&& r@.len() == 1
                &&& r@[0].0[0] == item->Object_0["status"@]->Unsigned_0 % 256
                &&& r@[0].0[1] == item->Object_0["data1"@]->Unsigned_0 % 256
                &&& r@[0].1 is PlayPause <==> name == "play_pause"@
                &&& r@[0].1 is Stop <==> name == "stop"@
                &&& r@[0].1 is Next <==> name == "next"@
                &&& r@[0].1 is Prev <==> name == "prev"@
            }
        }),
{
    let items = seq![item];
    lemma_filter_map_one(items, |item: Json| binding_of(item));
    assert(items[0] == item);
    if item is Object && item->Object_0.contains_key("action"@) && item->Object_0["action"@] is Text {
        let name = item->Object_0["action"@]->Text_0;
        Action::lemma_key_round_trip(Action::PlayPause, name);
        Action::lemma_key_round_trip(Action::Stop, name);
        Action::lemma_key_round_trip(Action::Next, name);
        Action::lemma_key_round_trip(Action::Prev, name);
    }
}

/// Reading a text is reading the value that it spells; a text that spells none
/// holds no bindings.
pub proof fn lemma_text_read(text: &str, value: &Value, from_value: Vec<Binding>, r: Vec<Binding>)
    requires
        call_ensures(bindings_from_json, (text,), r),
        call_ensures(bindings_from_value, (value,), from_value),
    ensures
        parsed(text@) is None ==> r@.len() == 0,
        parsed(text@) == Some(document(*value)) ==> r@ == from_value@,
{
}

/// Bindings are stored as an array of one object for each, in their order, with
/// the two bytes of the key, the identifier of the action, and nothing more.
pub proof fn lemma_stored_form(map: &[Binding], r: String)
    requires
        call_ensures(bindings_to_json, (map,), r),
    ensures
        parsed(r@) is Some,
        parsed(r@)->0 is Array,
        parsed(r@)->0->Array_0.len() == map@.len(),
        forall|i: int|
            0 <= i < map@.len() ==> {
                let item = #[trigger] parsed(r@)->0->Array_0[i];
                let fields = item->Object_0;
                &&& item is Object
                &&& forall|k: Seq<char>| #[trigger]
                    fields.contains_key(k) <==> k == "status"@ || k == "data1"@ || k == "action"@
                &&& fields["status"@] == Json::Unsigned(map@[i].0[0] as u64)
                &&& fields["data1"@] == Json::Unsigned(map@[i].0[1] as u64)
                &&& map@[i].1 is PlayPause ==> fields["action"@] == Json::Text("play_pause"@)
                &&& map@[i].1 is Stop ==> fields["action"@] == Json::Text("stop"@)
                &&& map@[i].1 is Next ==> fields["action"@] == Json::Text("next"@)
                &&& map@[i].1 is Prev ==> fields["action"@] == Json::Text("prev"@)
            },
{
    reveal_strlit("status");
    reveal_strlit("data1");
    reveal_strlit("action");
    assert("status"@[0] == 's' && "data1"@[0] == 'd' && "action"@[0] == 'a');
    assert forall|i: int| 0 <= i < map@.len() implies #[trigger] parsed(r@)->0->Array_0[i]
        == record_of(map@[i]) by {}
}

/// Bindings that were stored are read again as they were, however many there are
/// and whatever they hold.
pub proof fn lemma_stored_read_again(map: &[Binding], text: &str, stored: String, r: Vec<Binding>)
    requires
        call_ensures(bindings_to_json, (map,), stored),
        call_ensures(bindings_from_json, (text,), r),
        text@ == stored@,
    ensures
        r@ == map@,
{
}

} // verus!
