//! MIDI bindings as they are stored: a JSON array of `{status, data1, action}`
//! objects.
use serde_json::Value;
use vstd::prelude::*;

use crate::action::Action;
use crate::json;
#[allow(unused_imports)]
use crate::json::{document, documents, is_record, is_record_list, member, parsed, spelled, Json};
use crate::midi::Binding;

verus! {

/// The object that stores one binding.
pub open spec fn record_of(binding: Binding) -> Json {
    Json::Object(
        map![
            "status"@ => Json::Unsigned(binding.0[0] as u64),
            "data1"@ => Json::Unsigned(binding.0[1] as u64),
            "action"@ => Json::Text(binding.1.spec_key()),
        ],
    )
}

/// The array that stores bindings, in their order.
pub open spec fn records_of(map: Seq<Binding>) -> Json {
    Json::Array(map.map_values(|b: Binding| record_of(b)))
}

/// The binding that these fields stand for, if all are there and the action is
/// known. A number beyond a byte counts by its low byte.
pub open spec fn binding_of_fields(
    status: Option<u64>,
    data1: Option<u64>,
    action: Option<Seq<char>>,
) -> Option<Binding> {
    match (status, data1, action) {
        (Some(s), Some(d), Some(name)) => match Action::spec_from_key(name) {
            Some(a) => Some(([(s % 256) as u8, (d % 256) as u8], a)),
            None => None,
        },
        _ => None,
    }
}

/// The fields of one stored binding, each as far as it was found with the right
/// type.
#[derive(Debug)]
pub struct Fields {
    pub status: Option<u64>,
    pub data1: Option<u64>,
    pub action: Option<String>,
}

impl Fields {
    /// The binding that these fields stand for, if they stand for one.
    pub open spec fn binding(self) -> Option<Binding> {
        binding_of_fields(
            self.status,
            self.data1,
            match self.action {
                Some(name) => Some(name@),
                None => None,
            },
        )
    }
}

/// The bindings that a list of fields stands for, in their order.
pub open spec fn bindings_of_list(list: Seq<Fields>) -> Seq<Binding> {
    list.filter_map(|fields: Fields| fields.binding())
}

/// The binding that an element of the array stands for, if it stands for one.
pub open spec fn binding_of(item: Json) -> Option<Binding> {
    binding_of_fields(
        match member(item, "status"@) {
            Json::Unsigned(n) => Some(n),
            _ => None,
        },
        match member(item, "data1"@) {
            Json::Unsigned(n) => Some(n),
            _ => None,
        },
        match member(item, "action"@) {
            Json::Text(s) => Some(s),
            _ => None,
        },
    )
}

/// The bindings that an array of elements stands for: those of the elements
/// that stand for one, in their order.
pub open spec fn bindings_of_items(items: Seq<Json>) -> Seq<Binding> {
    items.filter_map(|item: Json| binding_of(item))
}

/// The bindings that a document stands for: none, unless it is an array.
pub open spec fn bindings_of(value: Json) -> Seq<Binding> {
    match value {
        Json::Array(items) => bindings_of_items(items),
        _ => Seq::empty(),
    }
}

/// The bindings that a text stands for: none, unless it spells an array.
pub open spec fn bindings_in(text: Seq<char>) -> Seq<Binding> {
    match parsed(text) {
        Some(value) => bindings_of(value),
        None => Seq::empty(),
    }
}

/// The object that stores one binding, as a JSON value.
fn record(binding: Binding) -> (r: Value)
    ensures
        document(r) == record_of(binding),
{
    let mut fields = json::no_members();
    json::set_member(&mut fields, "status", json::from_byte(binding.0[0]));
    json::set_member(&mut fields, "data1", json::from_byte(binding.0[1]));
    json::set_member(&mut fields, "action", json::from_text(binding.1.key()));
    assert(json::members(fields) =~= record_of(binding)->Object_0);
    json::from_members(fields)
}

/// Serializes bindings to a JSON array of `{status, data1, action}` objects.
/// Reading the text gives the same bindings again.
pub fn bindings_to_json(map: &[Binding]) -> (r: String)
    ensures
        r@ == spelled(records_of(map@)),
        parsed(r@) == Some(records_of(map@)),
        bindings_in(r@) == map@,
{
    let mut items: Vec<Value> = Vec::new();
    for i in 0..map.len()
        invariant
            items@.len() == i,
            forall|j: int| 0 <= j < i ==> document(#[trigger] items@[j]) == record_of(map@[j]),
    {
        items.push(record(map[i]));
    }
    assert(documents(items@) =~= map@.map_values(|b: Binding| record_of(b)));
    let value = json::from_items(items);
    proof {
        lemma_records_are_flat(map@);
        lemma_records_round_trip(map@);
    }
    json::spell(&value)
}

/// Reads the binding out of the fields of one object: the fields as they were
/// found, each only where it has the right type.
pub fn binding_from_fields(status: Option<u64>, data1: Option<u64>, action: Option<&str>) -> (r:
    Option<Binding>)
    ensures
        r == binding_of_fields(
            status,
            data1,
            match action {
                Some(s) => Some(s@),
                None => None,
            },
        ),
{
    match (status, data1, action) {
        (Some(status), Some(data1), Some(name)) => match Action::from_key(name) {
            Some(action) => {
                proof {
                    assert(status as u8 == status % 256) by (bit_vector);
                    assert(data1 as u8 == data1 % 256) by (bit_vector);
                }
                Some(([status as u8, data1 as u8], action))
            },
            None => None,
        },
        _ => None,
    }
}

/// Reads the fields of every element, in their order; an element that stands for
/// no binding is skipped.
pub fn bindings_from_list(list: &Vec<Fields>) -> (r: Vec<Binding>)
    ensures
        r@ == bindings_of_list(list@),
{
    let ghost read = |fields: Fields| fields.binding();
    let mut out: Vec<Binding> = Vec::new();
    for i in 0..list.len()
        invariant
            read == (|fields: Fields| fields.binding()),
            out@ == list@.take(i as int).filter_map(read),
    {
        reveal(Seq::filter_map);
        assert(list@.take(i + 1).drop_last() =~= list@.take(i as int));
        let fields = &list[i];
        let action = match &fields.action {
            Some(name) => Some(name.as_str()),
            None => None,
        };
        if let Some(binding) = binding_from_fields(fields.status, fields.data1, action) {
            out.push(binding);
        }
    }
    assert(list@.take(list@.len() as int) =~= list@);
    out
}

/// The fields of one element, each only where it has the right type.
fn fields_of(item: &Value) -> (r: Fields)
    ensures
        r.binding() == binding_of(document(*item)),
{
    let action = match json::get(item, "action").as_str() {
        Some(name) => Some(name.to_owned()),
        None => None,
    };
    Fields {
        status: json::get(item, "status").as_u64(),
        data1: json::get(item, "data1").as_u64(),
        action,
    }
}

/// Reads bindings out of a JSON value; a value that is no array holds none.
pub fn bindings_from_value(value: &Value) -> (r: Vec<Binding>)
    ensures
        r@ == bindings_of(document(*value)),
{
    let mut list: Vec<Fields> = Vec::new();
    match value.as_array() {
        Some(items) => {
            for i in 0..items.len()
                invariant
                    list@.len() == i,
                    forall|j: int|
                        0 <= j < i ==> (#[trigger] list@[j]).binding() == binding_of(
                            documents(items@)[j],
                        ),
            {
                list.push(fields_of(&items[i]));
            }
            proof {
                lemma_same_bindings(list@, documents(items@));
            }
        },
        None => {
            reveal(Seq::filter_map);
        },
    }
    bindings_from_list(&list)
}

/// Reads stored bindings. A text that spells no JSON array gives none.
pub fn bindings_from_json(text: &str) -> (r: Vec<Binding>)
    ensures
        r@ == bindings_in(text@),
{
    match json::parse(text) {
        Ok(value) => bindings_from_value(&value),
        Err(_) => Vec::new(),
    }
}

/// Fields that stand for the same as the elements they were read from give the
/// same bindings.
proof fn lemma_same_bindings(list: Seq<Fields>, items: Seq<Json>)
    requires
        list.len() == items.len(),
        forall|i: int| 0 <= i < list.len() ==> (#[trigger] list[i]).binding() == binding_of(items[i]),
    ensures
        bindings_of_list(list) == bindings_of_items(items),
    decreases list.len(),
{
    reveal(Seq::filter_map);
    if list.len() > 0 {
        lemma_same_bindings(list.drop_last(), items.drop_last());
        assert(list[list.len() - 1].binding() == binding_of(items[items.len() - 1]));
    }
}

/// Stored bindings are flat records.
proof fn lemma_records_are_flat(map: Seq<Binding>)
    ensures
        is_record_list(records_of(map)),
{
}

/// A stored binding stands for itself.
pub proof fn lemma_record_round_trip(binding: Binding)
    ensures
        binding_of(record_of(binding)) == Some(binding),
{
    reveal_strlit("status");
    reveal_strlit("data1");
    reveal_strlit("action");
    assert("status"@[0] == 's' && "data1"@[0] == 'd' && "action"@[0] == 'a');
    Action::lemma_key_round_trip(binding.1, binding.1.spec_key());
    assert([binding.0[0], binding.0[1]] =~= binding.0);
}

/// Reading the array that stores bindings gives those bindings.
pub proof fn lemma_records_round_trip(map: Seq<Binding>)
    ensures
        bindings_of(records_of(map)) == map,
    decreases map.len(),
{
    reveal(Seq::filter_map);
    let items = map.map_values(|b: Binding| record_of(b));
    if map.len() > 0 {
        let rest = map.drop_last();
        lemma_records_round_trip(rest);
        lemma_record_round_trip(map.last());
        assert(items.drop_last() =~= rest.map_values(|b: Binding| record_of(b)));
        assert(rest + seq![map.last()] =~= map);
    }
}

} // verus!
