//! JSON trees: the executable type, its mathematical view, and the lookups
//! that the rest of the crate builds on.

use crate::codec::{number_model, number_of, signed_number_of};
use vstd::prelude::*;

verus! {

/// A JSON number as a mathematical value.
pub enum NumberView {
    /// A whole number.
    Integer(int),
    /// A binary64 real, given by its bit pattern.
    Real(u64),
}

/// A JSON value as a mathematical tree. An object is a finite map from keys to
/// values: it has no order and no key twice.
pub enum JsonView {
    Null,
    Bool(bool),
    Number(NumberView),
    Text(Seq<char>),
    Array(Seq<JsonView>),
    Object(Map<Seq<char>, JsonView>),
}

/// A JSON value.
///
/// An object keeps its members in a vector. Where a key stands twice the later
/// member counts, so the object's view is a map. `==` compares the members in
/// their order: two objects with the same view can differ under it.
#[derive(Debug, PartialEq, Eq)]
pub enum Json {
    Null,
    Bool(bool),
    Number(serde_json::Number),
    Text(String),
    Array(Vec<Json>),
    Object(Vec<Member>),
}

/// One member of an object.
#[derive(Debug, PartialEq, Eq)]
pub struct Member {
    pub key: String,
    pub value: Json,
}

/// The tree that a value stands for.
pub open spec fn json_view(j: Json) -> JsonView
    decreases j,
{
    match j {
        Json::Null => JsonView::Null,
        Json::Bool(b) => JsonView::Bool(b),
        Json::Number(n) => JsonView::Number(number_model(n)),
        Json::Text(s) => JsonView::Text(s@),
        Json::Array(items) => JsonView::Array(items_view(items@)),
        Json::Object(members) => JsonView::Object(map_of(entries_view(members@))),
    }
}

/// The views of a sequence of values, element by element.
pub open spec fn items_view(items: Seq<Json>) -> Seq<JsonView>
    decreases items,
{
    Seq::new(
        items.len(),
        |i: int|
            if 0 <= i < items.len() {
                json_view(items[i])
            } else {
                JsonView::Null
            },
    )
}

/// The entries of a sequence of members: key and value, member by member.
pub open spec fn entries_view(members: Seq<Member>) -> Seq<(Seq<char>, JsonView)>
    decreases members,
{
    Seq::new(
        members.len(),
        |i: int|
            if 0 <= i < members.len() {
                (members[i].key@, json_view(members[i].value))
            } else {
                (Seq::empty(), JsonView::Null)
            },
    )
}

/// The map that a sequence of entries stands for: each entry is inserted in
/// turn, so a later entry replaces an earlier one with the same key.
pub open spec fn map_of(entries: Seq<(Seq<char>, JsonView)>) -> Map<Seq<char>, JsonView>
    decreases entries.len(),
{
    if entries.len() == 0 {
        Map::empty()
    } else {
        map_of(entries.drop_last()).insert(entries.last().0, entries.last().1)
    }
}

impl View for Json {
    type V = JsonView;

    open spec fn view(&self) -> JsonView {
        json_view(*self)
    }
}

/// The index of the last entry with the given key, if there is one.
pub open spec fn last_index_of(entries: Seq<(Seq<char>, JsonView)>, key: Seq<char>) -> Option<int>
    decreases entries.len(),
{
    if entries.len() == 0 {
        None
    } else if entries.last().0 == key {
        Some(entries.len() - 1)
    } else {
        last_index_of(entries.drop_last(), key)
    }
}

impl JsonView {
    /// An object without members.
    pub open spec fn empty_object() -> JsonView {
        JsonView::Object(Map::empty())
    }

    /// The value under `key`, where this is an object that has the key.
    pub open spec fn member(self, key: Seq<char>) -> Option<JsonView> {
        match self {
            JsonView::Object(m) => if m.dom().contains(key) {
                Some(m[key])
            } else {
                None
            },
            _ => None,
        }
    }

    /// The value reached by walking `path` key by key through nested objects.
    /// The empty path reaches the value itself.
    pub open spec fn get(self, path: Seq<Seq<char>>) -> Option<JsonView>
        decreases path.len(),
    {
        if path.len() == 0 {
            Some(self)
        } else {
            match self.member(path[0]) {
                Some(child) => child.get(path.drop_first()),
                None => None,
            }
        }
    }
}

/// What `last_index_of` finds: the greatest index that holds the key.
pub proof fn lemma_last_index_of(entries: Seq<(Seq<char>, JsonView)>, key: Seq<char>)
    ensures
        match last_index_of(entries, key) {
            Some(i) => {
                &&& 0 <= i < entries.len()
                &&& entries[i].0 == key
                &&& forall|j: int| i < j < entries.len() ==> entries[j].0 != key
            },
            None => forall|j: int| 0 <= j < entries.len() ==> entries[j].0 != key,
        },
    decreases entries.len(),
{
    if entries.len() > 0 && entries.last().0 != key {
        let front = entries.drop_last();
        lemma_last_index_of(front, key);
        assert(forall|j: int| 0 <= j < front.len() ==> front[j] == entries[j]);
    }
}

/// The map of a sequence of entries is finite, holds exactly the keys that
/// occur, and gives each key the value of its last entry.
pub proof fn lemma_map_of(entries: Seq<(Seq<char>, JsonView)>, key: Seq<char>)
    ensures
        map_of(entries).dom().finite(),
        map_of(entries).dom().contains(key) <==> last_index_of(entries, key) is Some,
        last_index_of(entries, key) matches Some(i) ==> map_of(entries)[key] == entries[i].1,
    decreases entries.len(),
{
    lemma_last_index_of(entries, key);
    if entries.len() > 0 {
        lemma_map_of(entries.drop_last(), key);
        lemma_last_index_of(entries.drop_last(), key);
    }
}

/// Appending an entry inserts it into the map.
pub proof fn lemma_map_of_push(entries: Seq<(Seq<char>, JsonView)>, key: Seq<char>, value: JsonView)
    ensures
        map_of(entries.push((key, value))) == map_of(entries).insert(key, value),
{
    assert(entries.push((key, value)).drop_last() =~= entries);
}

/// Replacing the value of the last entry with a key is an insert under that key.
pub proof fn lemma_map_of_update(
    entries: Seq<(Seq<char>, JsonView)>,
    i: int,
    key: Seq<char>,
    value: JsonView,
)
    requires
        last_index_of(entries, key) == Some(i),
    ensures
        map_of(entries.update(i, (key, value))) == map_of(entries).insert(key, value),
    decreases entries.len(),
{
    lemma_last_index_of(entries, key);
    let updated = entries.update(i, (key, value));
    if i == entries.len() - 1 {
        assert(updated.drop_last() =~= entries.drop_last());
        assert(map_of(updated) =~= map_of(entries).insert(key, value));
    } else {
        lemma_map_of_update(entries.drop_last(), i, key, value);
        assert(updated.drop_last() =~= entries.drop_last().update(i, (key, value)));
        assert(map_of(updated) =~= map_of(entries).insert(key, value));
    }
}

impl Json {
    /// A string value.
    pub fn text(s: &str) -> (j: Json)
        ensures
            j@ == JsonView::Text(s@),
    {
        Json::Text(s.to_owned())
    }

    /// A whole number.
    pub fn integer(n: u64) -> (j: Json)
        ensures
            j@ == JsonView::Number(NumberView::Integer(n as int)),
    {
        Json::Number(number_of(n))
    }

    /// A whole number that may be below zero.
    pub fn signed(n: i64) -> (j: Json)
        ensures
            j@ == JsonView::Number(NumberView::Integer(n as int)),
    {
        Json::Number(signed_number_of(n))
    }

    /// The string that this value holds, if it is a string.
    pub fn as_text(&self) -> (r: Option<&String>)
        ensures
            match r {
                Some(s) => self@ == JsonView::Text(s@),
                None => !(self@ is Text),
            },
    {
        match self {
            Json::Text(s) => Some(s),
            _ => None,
        }
    }

    /// The elements that this value holds, if it is an array.
    pub fn as_array(&self) -> (r: Option<&Vec<Json>>)
        ensures
            match r {
                Some(items) => self@ == JsonView::Array(items_view(items@)),
                None => !(self@ is Array),
            },
    {
        match self {
            Json::Array(items) => Some(items),
            _ => None,
        }
    }

    /// The value under `key`, if this is an object that has the key.
    pub fn member(&self, key: &str) -> (r: Option<&Json>)
        ensures
            match r {
                Some(j) => self@.member(key@) == Some(j@),
                None => self@.member(key@) is None,
            },
    {
        match self {
            Json::Object(members) => {
                let wanted = key.to_owned();
                proof {
                    lemma_map_of(entries_view(members@), key@);
                    lemma_last_index_of(entries_view(members@), key@);
                }
                match find_member(members, &wanted) {
                    Some(i) => Some(&members[i].value),
                    None => None,
                }
            },
            _ => None,
        }
    }

    /// A copy of the value: another tree with the same view.
    pub fn duplicate(&self) -> (copy: Json)
        ensures
            copy@ == self@,
        decreases self, 1int,
    {
        match self {
            Json::Null => Json::Null,
            Json::Bool(b) => Json::Bool(*b),
            Json::Number(n) => Json::Number(n.clone()),
            Json::Text(s) => Json::Text(s.clone()),
            Json::Array(items) => {
                let mut out: Vec<Json> = Vec::new();
                let mut i: usize = 0;
                while i < items.len()
                    invariant
                        i <= items.len(),
                        out.len() == i,
                        forall|k: int| 0 <= k < i ==> out[k]@ == items[k]@,
                        *self == Json::Array(*items),
                    decreases items.len() - i,
                {
                    proof {
                        vstd::std_specs::vec::axiom_vec_index_decreases(*items, i as int);
                        assert(self->Array_0 == *items);
                        assert(decreases_to!(*self => self->Array_0));
                    }
                    let item = items[i].duplicate();
                    out.push(item);
                    i += 1;
                }
                assert(items_view(out@) =~= items_view(items@));
                Json::Array(out)
            },
            Json::Object(members) => {
                let out = copy_members(members);
                Json::Object(out)
            },
        }
    }
}

/// Copies a vector of members, value by value.
pub fn copy_members(members: &Vec<Member>) -> (out: Vec<Member>)
    ensures
        entries_view(out@) == entries_view(members@),
    decreases members, 0int,
{
    let mut out: Vec<Member> = Vec::new();
    let mut i: usize = 0;
    while i < members.len()
        invariant
            i <= members.len(),
            out.len() == i,
            forall|k: int|
                0 <= k < i ==> out[k].key@ == members[k].key@ && out[k].value@
                    == members[k].value@,
        decreases members.len() - i,
    {
        proof {
            vstd::std_specs::vec::axiom_vec_index_decreases(*members, i as int);
            assert(decreases_to!(members[i as int] => members[i as int].value));
        }
        let value = members[i].value.duplicate();
        out.push(Member { key: members[i].key.clone(), value });
        i += 1;
    }
    assert(entries_view(out@) =~= entries_view(members@));
    out
}

/// An empty list of members, which stands for the empty map.
pub fn no_members() -> (members: Vec<Member>)
    ensures
        map_of(entries_view(members@)) == Map::<Seq<char>, JsonView>::empty(),
{
    let members: Vec<Member> = Vec::new();
    assert(entries_view(members@).len() == 0);
    members
}

/// Appends a member to an object's members: in the object's map the key then
/// holds the value.
pub fn push_member(members: &mut Vec<Member>, key: &str, value: Json)
    ensures
        map_of(entries_view(final(members)@)) == map_of(entries_view(old(members)@)).insert(
            key@,
            value@,
        ),
{
    let ghost set = value@;
    proof {
        lemma_map_of_push(entries_view(members@), key@, set);
    }
    members.push(Member { key: key.to_owned(), value });
    assert(entries_view(members@) =~= entries_view(old(members)@).push((key@, set)));
}

/// Finds the last member with the given key.
pub fn find_member(members: &Vec<Member>, key: &String) -> (r: Option<usize>)
    ensures
        match r {
            Some(i) => i < members.len() && last_index_of(entries_view(members@), key@) == Some(
                i as int,
            ),
            None => last_index_of(entries_view(members@), key@) is None,
        },
{
    let mut i: usize = members.len();
    while i > 0
        invariant
            i <= members.len(),
            forall|j: int| i <= j < members.len() ==> entries_view(members@)[j].0 != key@,
        decreases i,
    {
        i -= 1;
        if members[i].key == *key {
            proof {
                lemma_last_index_of(entries_view(members@), key@);
                assert(entries_view(members@)[i as int].0 == key@);
            }
            return Some(i);
        }
    }
    proof {
        lemma_last_index_of(entries_view(members@), key@);
        assert(forall|j: int|
            0 <= j < members.len() ==> entries_view(members@)[j].0 == members[j].key@);
    }
    None
}

} // verus!
