//! JSON text. Reading and writing it is the work of the crate `serde_json`;
//! this module turns its values into [`Json`] and back, layer by layer.
use vstd::prelude::*;

use crate::json::{clone_number, items_view, members_view, number_view, Json, JsonView};
use crate::text::text_eq;

verus! {

/// What a value of `serde_json` holds.
pub uninterp spec fn value_view(v: serde_json::Value) -> JsonView;

/// The value that `serde_json::from_str` reads from a text, if it reads one.
pub uninterp spec fn json_parsed(text: Seq<char>) -> Option<JsonView>;

/// The compact text that `serde_json::to_string` writes of a value.
pub uninterp spec fn json_text(v: JsonView) -> Seq<char>;

/// The topmost layer of a value of `serde_json`.
pub enum Layer {
    Null,
    Bool(bool),
    Unsigned(u64),
    Signed(i64),
    Number(serde_json::Number),
    Text(String),
    Array(Vec<serde_json::Value>),
    Object(Vec<(String, serde_json::Value)>),
}

pub open spec fn value_items(items: Seq<serde_json::Value>) -> Seq<JsonView> {
    items.map_values(|v: serde_json::Value| value_view(v))
}

/// The members of an object: of two with one name the later counts.
pub open spec fn value_members(members: Seq<(String, serde_json::Value)>) -> Map<
    Seq<char>,
    JsonView,
>
    decreases members.len(),
{
    if members.len() == 0 {
        Map::empty()
    } else {
        value_members(members.drop_last()).insert(members.last().0@, value_view(members.last().1))
    }
}

impl View for Layer {
    type V = JsonView;

    open spec fn view(&self) -> JsonView {
        match *self {
            Layer::Null => JsonView::Null,
            Layer::Bool(b) => JsonView::Bool(b),
            Layer::Unsigned(n) => JsonView::integer(n as int),
            Layer::Signed(n) => JsonView::integer(n as int),
            Layer::Number(n) => JsonView::Number(number_view(n)),
            Layer::Text(s) => JsonView::Text(s@),
            Layer::Array(items) => JsonView::Array(value_items(items@)),
            Layer::Object(members) => JsonView::Object(value_members(members@)),
        }
    }
}

/// Whether no two members have one name.
pub open spec fn names_differ(members: Seq<(String, serde_json::Value)>) -> bool {
    forall|i: int, j: int|
        0 <= i < j < members.len() ==> #[trigger] members[i].0@ != #[trigger] members[j].0@
}

/// Takes the topmost layer off a `serde_json::Value`, variant by variant.
/// Claimed: the layer holds what the value held, and the names in an object,
/// which come out of a map, all differ.
#[verifier::external_body]
fn open_value(v: serde_json::Value) -> (r: Layer)
    ensures
        r@ == value_view(v),
        r matches Layer::Object(members) ==> names_differ(members@),
{
    match v {
        serde_json::Value::Null => Layer::Null,
        serde_json::Value::Bool(b) => Layer::Bool(b),
        serde_json::Value::Number(n) => Layer::Number(n),
        serde_json::Value::String(s) => Layer::Text(s),
        serde_json::Value::Array(items) => Layer::Array(items),
        serde_json::Value::Object(members) => Layer::Object(members.into_iter().collect()),
    }
}

/// Puts a layer together to a `serde_json::Value`, variant by variant. Claimed:
/// the value holds what the layer held, and `Number::from` gives the number of an
/// integer. Of two members with one name, which the map of an object would keep
/// is left unsaid: there are none.
#[verifier::external_body]
fn close_value(layer: Layer) -> (r: serde_json::Value)
    requires
        layer matches Layer::Object(members) ==> names_differ(members@),
    ensures
        value_view(r) == layer@,
{
    match layer {
        Layer::Null => serde_json::Value::Null,
        Layer::Bool(b) => serde_json::Value::Bool(b),
        Layer::Unsigned(n) => serde_json::Value::Number(serde_json::Number::from(n)),
        Layer::Signed(n) => serde_json::Value::Number(serde_json::Number::from(n)),
        Layer::Number(n) => serde_json::Value::Number(n),
        Layer::Text(s) => serde_json::Value::String(s),
        Layer::Array(items) => serde_json::Value::Array(items),
        Layer::Object(members) => serde_json::Value::Object(members.into_iter().collect()),
    }
}

/// `serde_json::from_str` into a `serde_json::Value`. What it reads, and whether
/// it reads anything, depends on the text alone.
#[verifier::external_body]
fn parse_value(text: &str) -> (r: Option<serde_json::Value>)
    ensures
        match r {
            Some(v) => json_parsed(text@) == Some(value_view(v)),
            None => json_parsed(text@) is None,
        },
{
    serde_json::from_str::<serde_json::Value>(text).ok()
}

/// `serde_json::to_string` of a `serde_json::Value`, which fails on no such
/// value. The text depends on what the value holds alone, for the map of an
/// object is ordered by name. Every control character of a text is escaped, and
/// the compact form has no line breaks, so none is in the result.
#[verifier::external_body]
fn value_text(v: &serde_json::Value) -> (r: String)
    ensures
        r@ == json_text(value_view(*v)),
        forall|i: int| 0 <= i < r@.len() ==> #[trigger] r@[i] != '\n' && r@[i] != '\r',
{
    serde_json::to_string(v).unwrap_or_default()
}

proof fn lemma_value_members(members: Seq<(String, serde_json::Value)>)
    requires
        names_differ(members),
    ensures
        forall|i: int|
            0 <= i < members.len() ==> {
                &&& value_members(members).dom().contains(#[trigger] members[i].0@)
                &&& value_members(members)[members[i].0@] == value_view(members[i].1)
            },
        value_members(members).dom().finite(),
    decreases members.len(),
{
    if members.len() > 0 {
        let front = members.drop_last();
        assert(names_differ(front)) by {
            assert forall|i: int, j: int| 0 <= i < j < front.len() implies #[trigger] front[i].0@
                != #[trigger] front[j].0@ by {
                assert(members[i].0@ != members[j].0@);
            }
        }
        lemma_value_members(front);
        assert forall|i: int| 0 <= i < members.len() implies {
            &&& value_members(members).dom().contains(#[trigger] members[i].0@)
            &&& value_members(members)[members[i].0@] == value_view(members[i].1)
        } by {
            if i < front.len() {
                assert(front[i] == members[i]);
                assert(members[i].0@ != members[members.len() - 1].0@);
            }
        }
    }
}

/// A new value for the member at that place, the only one of its name.
proof fn lemma_replaced_member(
    members: Seq<(String, serde_json::Value)>,
    i: int,
    member: (String, serde_json::Value),
)
    requires
        names_differ(members),
        0 <= i < members.len(),
        members[i].0@ == member.0@,
    ensures
        value_members(members.update(i, member)) == value_members(members).insert(
            member.0@,
            value_view(member.1),
        ),
    decreases members.len(),
{
    let front = members.drop_last();
    let last = members.last();
    let updated = members.update(i, member);
    if i == members.len() - 1 {
        assert(updated.drop_last() =~= front);
        assert(value_members(updated) =~= value_members(members).insert(
            member.0@,
            value_view(member.1),
        ));
    } else {
        assert(names_differ(front)) by {
            assert forall|j: int, k: int| 0 <= j < k < front.len() implies #[trigger] front[j].0@
                != #[trigger] front[k].0@ by {
                assert(members[j].0@ != members[k].0@);
            }
        }
        assert(members[i].0@ != members[members.len() - 1].0@);
        lemma_replaced_member(front, i, member);
        assert(updated.drop_last() =~= front.update(i, member));
        assert(value_members(updated) =~= value_members(members).insert(
            member.0@,
            value_view(member.1),
        ));
    }
}

/// Puts a member among others that all have different names. Where the name is
/// there, its value is replaced.
fn put_member(
    members: &mut Vec<(String, serde_json::Value)>,
    name: String,
    value: serde_json::Value,
)
    requires
        names_differ(old(members)@),
    ensures
        names_differ(final(members)@),
        value_members(final(members)@) == value_members(old(members)@).insert(
            name@,
            value_view(value),
        ),
{
    let ghost before = members@;
    let mut i: usize = 0;
    while i < members.len()
        invariant
            i <= members@.len(),
            members@ == before,
            names_differ(before),
            before == old(members)@,
            forall|k: int| 0 <= k < i ==> (#[trigger] before[k]).0@ != name@,
        decreases members.len() - i,
    {
        if text_eq(members[i].0.as_str(), name.as_str()) {
            let ghost member = (name, value);
            proof {
                lemma_replaced_member(before, i as int, member);
            }
            members.set(i, (name, value));
            assert(names_differ(members@)) by {
                assert forall|j: int, k: int| 0 <= j < k < members@.len() implies
                    #[trigger] members@[j].0@ != #[trigger] members@[k].0@ by {
                    assert(before[j].0@ != before[k].0@);
                }
            }
            return;
        }
        i = i + 1;
    }
    members.push((name, value));
    proof {
        assert(members@.drop_last() =~= before);
        assert forall|j: int, k: int| 0 <= j < k < members@.len() implies #[trigger] members@[j].0@
            != #[trigger] members@[k].0@ by {
            assert(members@[j] == before[j]);
            if k < before.len() {
                assert(before[j].0@ != before[k].0@);
            }
        }
    }
}

/// The value of `serde_json` as a [`Json`].
pub fn json_of_value(v: serde_json::Value) -> (r: Json)
    ensures
        r@ == value_view(v),
    decreases value_view(v),
{
    match open_value(v) {
        Layer::Null => Json::Null,
        Layer::Bool(b) => Json::Bool(b),
        Layer::Unsigned(n) => Json::Unsigned(n),
        Layer::Signed(n) => Json::Signed(n),
        Layer::Number(n) => Json::Number(n),
        Layer::Text(s) => Json::Text(s),
        Layer::Array(items) => {
            let mut out: Vec<Json> = Vec::new();
            let ghost all = items@;
            assert(value_items(all).take(0) =~= items_view(out@));
            for item in it: items
                invariant
                    it.seq() == all,
                    value_view(v) == JsonView::Array(value_items(all)),
                    items_view(out@) == value_items(all).take(it.index() as int),
            {
                let ghost before = out@;
                let ghost i = it.index() as int;
                proof {
                    assert(item == all[i]);
                    assert(value_items(all)[i] == value_view(item));
                    assert(decreases_to!(value_view(v) => value_view(v)->Array_0));
                    assert(decreases_to!(value_items(all) => value_items(all)[i]));
                }
                out.push(json_of_value(item));
                proof {
                    assert(out@.drop_last() =~= before);
                    assert(value_items(all).take(i + 1) =~= value_items(all).take(i).push(
                        value_items(all)[i],
                    ));
                }
            }
            assert(value_items(all).take(all.len() as int) =~= value_items(all));
            Json::Array(out)
        },
        Layer::Object(members) => {
            let mut out: Vec<(String, Json)> = Vec::new();
            let ghost all = members@;
            assert(value_members(all.take(0)) =~= members_view(out@));
            proof {
                lemma_value_members(all);
            }
            for member in it: members
                invariant
                    it.seq() == all,
                    names_differ(all),
                    value_view(v) == JsonView::Object(value_members(all)),
                    value_members(all).dom().finite(),
                    members_view(out@) == value_members(all.take(it.index() as int)),
                    forall|i: int|
                        0 <= i < all.len() ==> {
                            &&& value_members(all).dom().contains(#[trigger] all[i].0@)
                            &&& value_members(all)[all[i].0@] == value_view(all[i].1)
                        },
            {
                let ghost before = out@;
                let ghost i = it.index() as int;
                proof {
                    assert(member == all[i]);
                    assert(value_members(all)[all[i].0@] == value_view(all[i].1));
                    assert(decreases_to!(value_view(v) => value_view(v)->Object_0));
                    assert(decreases_to!(value_members(all) => value_members(all)[all[i].0@]));
                }
                let value = json_of_value(member.1);
                out.push((member.0, value));
                proof {
                    assert(out@.drop_last() =~= before);
                    assert(all.take(i + 1).drop_last() =~= all.take(i));
                }
            }
            assert(all.take(all.len() as int) =~= all);
            Json::Object(out)
        },
    }
}

/// The [`Json`] as a value of `serde_json`.
pub fn value_of_json(j: &Json) -> (r: serde_json::Value)
    ensures
        value_view(r) == j@,
    decreases j,
{
    match j {
        Json::Null => close_value(Layer::Null),
        Json::Bool(b) => close_value(Layer::Bool(*b)),
        Json::Unsigned(n) => close_value(Layer::Unsigned(*n)),
        Json::Signed(n) => close_value(Layer::Signed(*n)),
        Json::Number(n) => close_value(Layer::Number(clone_number(n))),
        Json::Text(s) => close_value(Layer::Text(s.clone())),
        Json::Array(items) => {
            let mut out: Vec<serde_json::Value> = Vec::new();
            let mut i: usize = 0;
            assert(value_items(out@) =~= items_view(items@.take(0)));
            while i < items.len()
                invariant
                    i <= items@.len(),
                    value_items(out@) == items_view(items@.take(i as int)),
                    *j is Array,
                    (*j)->Array_0 == *items,
                decreases items.len() - i,
            {
                proof {
                    assert(decreases_to!(*j => (*j)->Array_0));
                    assert(decreases_to!(*items => items@));
                    assert(decreases_to!(items@ => items@[i as int]));
                }
                let item = value_of_json(&items[i]);
                let ghost before = out@;
                out.push(item);
                proof {
                    assert(value_items(out@) =~= value_items(before).push(value_view(item)));
                    assert(items@.take(i + 1).drop_last() =~= items@.take(i as int));
                }
                i = i + 1;
            }
            assert(items@.take(i as int) =~= items@);
            close_value(Layer::Array(out))
        },
        Json::Object(members) => {
            let mut out: Vec<(String, serde_json::Value)> = Vec::new();
            let mut i: usize = 0;
            assert(value_members(out@) =~= members_view(members@.take(0)));
            while i < members.len()
                invariant
                    i <= members@.len(),
                    names_differ(out@),
                    value_members(out@) == members_view(members@.take(i as int)),
                    *j is Object,
                    (*j)->Object_0 == *members,
                decreases members.len() - i,
            {
                proof {
                    assert(decreases_to!(*j => (*j)->Object_0));
                    assert(decreases_to!(*members => members@));
                    assert(decreases_to!(members@ => members@[i as int]));
                    assert(decreases_to!(members@[i as int] => members@[i as int].1));
                }
                let value = value_of_json(&members[i].1);
                put_member(&mut out, members[i].0.clone(), value);
                assert(members@.take(i + 1).drop_last() =~= members@.take(i as int));
                i = i + 1;
            }
            assert(members@.take(i as int) =~= members@);
            close_value(Layer::Object(out))
        },
    }
}

/// Reads a JSON text.
pub fn parse_json(text: &str) -> (r: Option<Json>)
    ensures
        match r {
            Some(j) => json_parsed(text@) == Some(j@),
            None => json_parsed(text@) is None,
        },
{
    match parse_value(text) {
        Some(v) => Some(json_of_value(v)),
        None => None,
    }
}

/// Whether the text is of one line.
pub open spec fn one_line(s: Seq<char>) -> bool {
    forall|i: int| 0 <= i < s.len() ==> #[trigger] s[i] != '\n' && s[i] != '\r'
}

/// Writes the compact JSON text of a value.
pub fn write_json(j: &Json) -> (r: String)
    ensures
        r@ == json_text(j@),
        one_line(r@),
{
    let v = value_of_json(j);
    value_text(&v)
}

} // verus!
