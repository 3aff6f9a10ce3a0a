//! JSON values: the tree that the stream mappers read and write.
use vstd::prelude::*;

use crate::text::{text_eq, text_views};

verus! {

/// A JSON value.
pub enum Json {
    Null,
    Bool(bool),
    Unsigned(u64),
    Signed(i64),
    /// A number as `serde_json` read it.
    Number(serde_json::Number),
    Text(String),
    Array(Vec<Json>),
    /// The members in order of insertion. Of two members with one name the
    /// later counts.
    Object(Vec<(String, Json)>),
}

/// What a JSON value is, whatever its representation.
pub enum JsonView {
    Null,
    Bool(bool),
    Number(NumberView),
    Text(Seq<char>),
    Array(Seq<JsonView>),
    Object(Map<Seq<char>, JsonView>),
}

/// What a number is: an integer of 64 bits, with a sign or without one, or else
/// a float, which no one here looks into.
pub enum NumberView {
    Integer(int),
    Float(serde_json::Number),
}

/// What a number of `serde_json` is.
pub uninterp spec fn number_view(n: serde_json::Number) -> NumberView;

/// A number of the crate `serde_json`.
#[verifier::external_type_specification]
#[verifier::external_body]
pub struct ExNumber(serde_json::Number);

/// A value of the crate `serde_json`.
#[verifier::external_type_specification]
#[verifier::external_body]
pub struct ExValue(serde_json::Value);

/// `serde_json::Number::as_u64` gives the number where it is an integer that
/// fits, and else nothing.
pub assume_specification[ serde_json::Number::as_u64 ](n: &serde_json::Number) -> (r: Option<u64>)
    ensures
        r == number_as_u64(number_view(*n)),
;

/// The number, where it is an integer of 64 bits that is not negative.
pub open spec fn number_as_u64(n: NumberView) -> Option<u64> {
    match n {
        NumberView::Integer(i) => if 0 <= i <= u64::MAX {
            Some(i as u64)
        } else {
            None
        },
        NumberView::Float(_) => None,
    }
}

impl View for Json {
    type V = JsonView;

    open spec fn view(&self) -> JsonView {
        json_view(*self)
    }
}

pub open spec fn json_view(j: Json) -> JsonView
    decreases j,
{
    match j {
        Json::Null => JsonView::Null,
        Json::Bool(b) => JsonView::Bool(b),
        Json::Unsigned(n) => JsonView::integer(n as int),
        Json::Signed(n) => JsonView::integer(n as int),
        Json::Number(n) => JsonView::Number(number_view(n)),
        Json::Text(s) => JsonView::Text(s@),
        Json::Array(items) => JsonView::Array(items_view(items@)),
        Json::Object(members) => JsonView::Object(members_view(members@)),
    }
}

/// The items of an array, in order.
pub open spec fn items_view(items: Seq<Json>) -> Seq<JsonView>
    decreases items,
{
    if items.len() == 0 {
        Seq::empty()
    } else {
        items_view(items.drop_last()).push(json_view(items.last()))
    }
}

/// The members of an object: of two with one name the later counts.
pub open spec fn members_view(members: Seq<(String, Json)>) -> Map<Seq<char>, JsonView>
    decreases members,
{
    if members.len() == 0 {
        Map::empty()
    } else {
        members_view(members.drop_last()).insert(members.last().0@, json_view(members.last().1))
    }
}

impl JsonView {
    pub open spec fn integer(n: int) -> JsonView {
        JsonView::Number(NumberView::Integer(n))
    }

    /// An object without members.
    pub open spec fn object() -> JsonView {
        JsonView::Object(Map::empty())
    }

    /// This object with one more member, or with a new value for an old one.
    pub open spec fn with(self, name: Seq<char>, value: JsonView) -> JsonView {
        match self {
            JsonView::Object(members) => JsonView::Object(members.insert(name, value)),
            other => other,
        }
    }

    /// The member of that name, where this is an object that has one.
    pub open spec fn get(self, name: Seq<char>) -> Option<JsonView> {
        match self {
            JsonView::Object(members) => if members.dom().contains(name) {
                Some(members[name])
            } else {
                None
            },
            _ => None,
        }
    }

    pub open spec fn as_text(self) -> Option<Seq<char>> {
        match self {
            JsonView::Text(s) => Some(s),
            _ => None,
        }
    }

    pub open spec fn as_bool(self) -> Option<bool> {
        match self {
            JsonView::Bool(b) => Some(b),
            _ => None,
        }
    }

    /// The number, where it is an integer of 64 bits that is not negative.
    pub open spec fn as_u64(self) -> Option<u64> {
        match self {
            JsonView::Number(n) => number_as_u64(n),
            _ => None,
        }
    }

    pub open spec fn as_array(self) -> Option<Seq<JsonView>> {
        match self {
            JsonView::Array(items) => Some(items),
            _ => None,
        }
    }

    /// Whether this is an object with at least one member.
    pub open spec fn has_members(self) -> bool {
        match self {
            JsonView::Object(members) => members != Map::<Seq<char>, JsonView>::empty(),
            _ => false,
        }
    }

    /// The texts as an array.
    pub open spec fn texts(texts: Seq<Seq<char>>) -> JsonView {
        JsonView::Array(texts.map_values(|s: Seq<char>| JsonView::Text(s)))
    }

    /// The member of that name, where it is a text.
    pub open spec fn text_at(self, name: Seq<char>) -> Option<Seq<char>> {
        match self.get(name) {
            Some(v) => v.as_text(),
            None => None,
        }
    }

    /// The member of that name, where it is an array.
    pub open spec fn array_at(self, name: Seq<char>) -> Option<Seq<JsonView>> {
        match self.get(name) {
            Some(v) => v.as_array(),
            None => None,
        }
    }
}

/// A view of an optional reference to a JSON value.
pub open spec fn view_of(j: Option<&Json>) -> Option<JsonView> {
    match j {
        Some(v) => Some(v@),
        None => None,
    }
}

/// A view of an optional text.
pub open spec fn text_of(s: Option<&str>) -> Option<Seq<char>> {
    match s {
        Some(v) => Some(v@),
        None => None,
    }
}

pub proof fn lemma_items_view(items: Seq<Json>)
    ensures
        items_view(items).len() == items.len(),
        forall|i: int| 0 <= i < items.len() ==> #[trigger] items_view(items)[i] == items[i]@,
    decreases items.len(),
{
    if items.len() > 0 {
        lemma_items_view(items.drop_last());
        assert forall|i: int| 0 <= i < items.len() implies #[trigger] items_view(items)[i]
            == items[i]@ by {
            if i < items.len() - 1 {
                assert(items.drop_last()[i] == items[i]);
                assert(items_view(items)[i] == items_view(items.drop_last())[i]);
            }
        }
    }
}

/// One item more of an array.
pub proof fn lemma_next_item(items: Seq<Json>, i: int)
    requires
        0 <= i < items.len(),
    ensures
        items_view(items.take(i + 1)) == items_view(items.take(i)).push(items[i]@),
        items_view(items.take(i + 1)).drop_last() == items_view(items.take(i)),
        items_view(items.take(i + 1)).last() == items[i]@,
        items_view(items.take(i)).len() == i,
{
    assert(items.take(i + 1).drop_last() =~= items.take(i));
    lemma_items_view(items.take(i));
    assert(items_view(items.take(i + 1)).drop_last() =~= items_view(items.take(i)));
}

impl Json {
    /// The text as a JSON value.
    pub fn text(s: &str) -> (r: Json)
        ensures
            r@ == JsonView::Text(s@),
    {
        Json::Text(s.to_owned())
    }

    /// An object without members.
    pub fn object() -> (r: Json)
        ensures
            r@ == JsonView::object(),
    {
        let members: Vec<(String, Json)> = Vec::new();
        assert(members_view(members@) =~= Map::empty());
        Json::Object(members)
    }

    /// An array of one item.
    pub fn array_of(item: Json) -> (r: Json)
        ensures
            r@ == JsonView::Array(seq![item@]),
    {
        let mut items: Vec<Json> = Vec::new();
        items.push(item);
        proof {
            lemma_items_view(items@);
            assert(items_view(items@) =~= seq![item@]);
        }
        Json::Array(items)
    }

    /// This object with one more member, or with a new value for an old one.
    /// A value that is no object stays as it is.
    pub fn with(self, name: &str, value: Json) -> (r: Json)
        ensures
            r@ == self@.with(name@, value@),
    {
        match self {
            Json::Object(members) => {
                let mut members = members;
                let ghost before = members@;
                members.push((name.to_owned(), value));
                assert(members@.drop_last() =~= before);
                Json::Object(members)
            },
            other => other,
        }
    }

    /// The member of that name, where this is an object that has one.
    pub fn get(&self, name: &str) -> (r: Option<&Json>)
        ensures
            view_of(r) == self@.get(name@),
    {
        match self {
            Json::Object(members) => {
                let mut i: usize = members.len();
                assert(members@.take(i as int) =~= members@);
                while i > 0
                    invariant
                        i <= members@.len(),
                        self@ == JsonView::Object(members_view(members@)),
                        members_view(members@).dom().contains(name@) <==> members_view(
                            members@.take(i as int),
                        ).dom().contains(name@),
                        members_view(members@).dom().contains(name@) ==> members_view(
                            members@,
                        )[name@] == members_view(members@.take(i as int))[name@],
                    decreases i,
                {
                    i = i - 1;
                    assert(members@.take(i + 1).drop_last() =~= members@.take(i as int));
                    assert(members@.take(i + 1).last() == members@[i as int]);
                    if text_eq(members[i].0.as_str(), name) {
                        return Some(&members[i].1);
                    }
                }
                assert(members@.take(0) =~= Seq::empty());
                None
            },
            _ => None,
        }
    }

    pub fn as_text(&self) -> (r: Option<&str>)
        ensures
            text_of(r) == self@.as_text(),
    {
        match self {
            Json::Text(s) => Some(s.as_str()),
            _ => None,
        }
    }

    pub fn as_bool(&self) -> (r: Option<bool>)
        ensures
            r == self@.as_bool(),
    {
        match self {
            Json::Bool(b) => Some(*b),
            _ => None,
        }
    }

    pub fn as_u64(&self) -> (r: Option<u64>)
        ensures
            r == self@.as_u64(),
    {
        match self {
            Json::Unsigned(n) => Some(*n),
            Json::Signed(n) => if *n >= 0 {
                Some(*n as u64)
            } else {
                None
            },
            Json::Number(n) => n.as_u64(),
            _ => None,
        }
    }

    pub fn as_array(&self) -> (r: Option<&Vec<Json>>)
        ensures
            match r {
                Some(items) => self@.as_array() == Some(items_view(items@)),
                None => self@.as_array() is None,
            },
    {
        match self {
            Json::Array(items) => Some(items),
            _ => None,
        }
    }

    /// Whether this is an object with at least one member.
    pub fn has_members(&self) -> (r: bool)
        ensures
            r == self@.has_members(),
    {
        match self {
            Json::Object(members) => {
                assert(members@.len() > 0 ==> members_view(members@).dom().contains(
                    members@.last().0@,
                ));
                assert(members@.len() == 0 ==> members_view(members@) =~= Map::empty());
                members.len() > 0
            },
            _ => false,
        }
    }

    /// The texts as an array.
    pub fn texts(texts: &Vec<String>) -> (r: Json)
        ensures
            r@ == JsonView::texts(text_views(texts@)),
    {
        let mut items: Vec<Json> = Vec::new();
        let ghost all = text_views(texts@).map_values(|s: Seq<char>| JsonView::Text(s));
        let mut i: usize = 0;
        assert(items_view(items@) =~= all.take(0));
        while i < texts.len()
            invariant
                i <= texts@.len(),
                all == text_views(texts@).map_values(|s: Seq<char>| JsonView::Text(s)),
                items_view(items@) == all.take(i as int),
            decreases texts.len() - i,
        {
            let ghost before = items@;
            items.push(Json::text(texts[i].as_str()));
            assert(items@.drop_last() =~= before);
            assert(all.take(i + 1) =~= all.take(i as int).push(all[i as int]));
            i = i + 1;
        }
        assert(all.take(i as int) =~= all);
        Json::Array(items)
    }

    /// The member of that name, where it is a text.
    pub fn text_at(&self, name: &str) -> (r: Option<&str>)
        ensures
            text_of(r) == self@.text_at(name@),
    {
        match self.get(name) {
            Some(v) => v.as_text(),
            None => None,
        }
    }

    /// The member of that name, where it is an array.
    pub fn array_at(&self, name: &str) -> (r: Option<&Vec<Json>>)
        ensures
            match r {
                Some(items) => self@.array_at(name@) == Some(items_view(items@)),
                None => self@.array_at(name@) is None,
            },
    {
        match self.get(name) {
            Some(v) => v.as_array(),
            None => None,
        }
    }

    /// An equal value of its own.
    pub fn duplicate(&self) -> (r: Json)
        ensures
            r@ == self@,
        decreases self,
    {
        match self {
            Json::Null => Json::Null,
            Json::Bool(b) => Json::Bool(*b),
            Json::Unsigned(n) => Json::Unsigned(*n),
            Json::Signed(n) => Json::Signed(*n),
            Json::Number(n) => Json::Number(clone_number(n)),
            Json::Text(s) => Json::Text(s.clone()),
            Json::Array(items) => {
                let mut out: Vec<Json> = Vec::new();
                let mut i: usize = 0;
                while i < items.len()
                    invariant
                        i <= items@.len(),
                        items_view(out@) == items_view(items@.take(i as int)),
                        *self == Json::Array(*items),
                    decreases items.len() - i,
                {
                    assert(decreases_to!(*self => (*self)->Array_0));
                    assert(decreases_to!(*items => items@));
                    assert(decreases_to!(items@ => items@[i as int]));
                    let item = items[i].duplicate();
                    let ghost before = out@;
                    out.push(item);
                    proof {
                        assert(out@.drop_last() =~= before);
                        assert(items@.take(i + 1).drop_last() =~= items@.take(i as int));
                    }
                    i = i + 1;
                }
                assert(items@.take(i as int) =~= items@);
                Json::Array(out)
            },
            Json::Object(members) => {
                let mut out: Vec<(String, Json)> = Vec::new();
                let mut i: usize = 0;
                while i < members.len()
                    invariant
                        i <= members@.len(),
                        members_view(out@) == members_view(members@.take(i as int)),
                        *self == Json::Object(*members),
                    decreases members.len() - i,
                {
                    assert(decreases_to!(*self => (*self)->Object_0));
                    assert(decreases_to!(*members => members@));
                    assert(decreases_to!(members@ => members@[i as int]));
                    assert(decreases_to!(members@[i as int] => members@[i as int].1));
                    let value = members[i].1.duplicate();
                    let ghost before = out@;
                    out.push((members[i].0.clone(), value));
                    proof {
                        assert(out@.drop_last() =~= before);
                        assert(members@.take(i + 1).drop_last() =~= members@.take(i as int));
                    }
                    i = i + 1;
                }
                assert(members@.take(i as int) =~= members@);
                Json::Object(out)
            },
        }
    }
}

/// `clone` of the crate `serde_json` for a number: the clone is the same number.
#[verifier::external_body]
pub(crate) fn clone_number(n: &serde_json::Number) -> (r: serde_json::Number)
    ensures
        r == *n,
{
    n.clone()
}

} // verus!
