//! The JSON document tree: an executable representation and its mathematical
//! model, with lookup operations over object members and array elements.

use vstd::prelude::*;

verus! {

/// Mathematical model of a JSON value. String contents are sequences of
/// characters; a number keeps the characters of its source token, so that no
/// precision is lost before the value is shown.
pub enum JsonV {
    Null,
    Bool(bool),
    Num(Seq<char>),
    Str(Seq<char>),
    Arr(Seq<JsonV>),
    Obj(Seq<(Seq<char>, JsonV)>),
}

/// A parsed JSON value. String contents and number tokens are held as
/// character vectors; object members keep their source order, duplicates
/// included.
#[derive(Debug, PartialEq, Eq)]
pub enum Json {
    Null,
    Bool(bool),
    Num(Vec<char>),
    Str(Vec<char>),
    Arr(Vec<Json>),
    Obj(Vec<(Vec<char>, Json)>),
}

impl View for Json {
    type V = JsonV;

    open spec fn view(&self) -> JsonV
        decreases self,
    {
        match self {
            Json::Null => JsonV::Null,
            Json::Bool(b) => JsonV::Bool(*b),
            Json::Num(t) => JsonV::Num(t@),
            Json::Str(s) => JsonV::Str(s@),
            Json::Arr(items) => JsonV::Arr(views_of(items@)),
            Json::Obj(members) => JsonV::Obj(member_views_of(members@)),
        }
    }
}

/// The models of a sequence of array elements.
pub open spec fn views_of(items: Seq<Json>) -> Seq<JsonV>
    decreases items,
{
    Seq::new(
        items.len(),
        |i: int|
            if 0 <= i < items.len() {
                items[i]@
            } else {
                JsonV::Null
            },
    )
}

/// The models of a sequence of object members.
pub open spec fn member_views_of(members: Seq<(Vec<char>, Json)>) -> Seq<(Seq<char>, JsonV)>
    decreases members,
{
    Seq::new(
        members.len(),
        |i: int|
            if 0 <= i < members.len() {
                (members[i].0@, members[i].1@)
            } else {
                (Seq::empty(), JsonV::Null)
            },
    )
}

/// The value of the last member with the given key, searching from the end:
/// when a key is repeated, the later member overwrites the earlier one, as an
/// insertion into a map would.
pub open spec fn lookup(members: Seq<(Seq<char>, JsonV)>, key: Seq<char>) -> Option<JsonV>
    decreases members.len(),
{
    if members.len() == 0 {
        None
    } else if members.last().0 == key {
        Some(members.last().1)
    } else {
        lookup(members.drop_last(), key)
    }
}

/// The value under `key` when the document is an object, `None` otherwise.
pub open spec fn member_of(doc: JsonV, key: Seq<char>) -> Option<JsonV> {
    match doc {
        JsonV::Obj(members) => lookup(members, key),
        _ => None,
    }
}

/// The element at `i` when the document is an array long enough, `None`
/// otherwise.
pub open spec fn element_of(doc: JsonV, i: int) -> Option<JsonV> {
    match doc {
        JsonV::Arr(items) => if 0 <= i < items.len() {
            Some(items[i])
        } else {
            None
        },
        _ => None,
    }
}

impl Json {
    /// The value of the last member with the given key, when this value is an
    /// object that has one.
    pub fn get_member<'a>(&'a self, key: &Vec<char>) -> (r: Option<&'a Json>)
        ensures
            r is None <==> member_of(self@, key@) is None,
            r matches Some(v) ==> member_of(self@, key@) == Some(v@),
    {
        match self {
            Json::Obj(members) => {
                let mut i = members.len();
                proof {
                    assert(member_views_of(members@).take(i as int) =~= member_views_of(
                        members@,
                    ));
                }
                while i > 0
                    invariant
                        i <= members@.len(),
                        self@ == JsonV::Obj(member_views_of(members@)),
                        lookup(member_views_of(members@), key@) == lookup(
                            member_views_of(members@).take(i as int),
                            key@,
                        ),
                    decreases i,
                {
                    i = i - 1;
                    let ghost prefix = member_views_of(members@).take(i + 1);
                    proof {
                        assert(prefix.drop_last() =~= member_views_of(members@).take(i as int));
                        assert(prefix.last() == (members@[i as int].0@, members@[i as int].1@));
                    }
                    if crate::chars::chars_eq(&members[i].0, key) {
                        proof {
                            assert(prefix.len() > 0);
                            assert(prefix.last().0 == key@);
                            assert(lookup(prefix, key@) == Some(prefix.last().1));
                            assert(lookup(member_views_of(members@), key@) == Some(
                                members@[i as int].1@,
                            ));
                        }
                        return Some(&members[i].1);
                    }
                    proof {
                        assert(lookup(prefix, key@) == lookup(prefix.drop_last(), key@));
                    }
                }
                proof {
                    assert(member_views_of(members@).take(0) =~= Seq::<(Seq<char>, JsonV)>::empty());
                }
                None
            },
            _ => None,
        }
    }

    /// The element at `i`, when this value is an array of more than `i`
    /// elements.
    pub fn get_element<'a>(&'a self, i: usize) -> (r: Option<&'a Json>)
        ensures
            r is None <==> element_of(self@, i as int) is None,
            r matches Some(v) ==> element_of(self@, i as int) == Some(v@),
    {
        match self {
            Json::Arr(items) => {
                if i < items.len() {
                    Some(&items[i])
                } else {
                    None
                }
            },
            _ => None,
        }
    }
}

} // verus!
