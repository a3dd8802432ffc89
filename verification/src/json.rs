//! JSON values, as far as a search reads and writes them.

use vstd::prelude::*;

use crate::text::same_text;

verus! {

/// A JSON value. A number is kept in the form in which it is written.
pub enum Json {
    Null,
    Bool(bool),
    Number(String),
    Str(String),
    Array(Vec<Json>),
    Object(Vec<Member>),
}

/// A member of a JSON object.
pub struct Member {
    pub name: String,
    pub value: Json,
}

/// The view of a [`Json`].
pub enum JsonView {
    Null,
    Bool(bool),
    Number(Seq<char>),
    Str(Seq<char>),
    Array(Seq<JsonView>),
    Object(Seq<MemberView>),
}

/// The view of a [`Member`].
pub struct MemberView {
    pub name: Seq<char>,
    pub value: JsonView,
}

impl View for Json {
    type V = JsonView;

    open spec fn view(&self) -> JsonView
        decreases self,
    {
        match self {
            Json::Null => JsonView::Null,
            Json::Bool(b) => JsonView::Bool(*b),
            Json::Number(s) => JsonView::Number(s@),
            Json::Str(s) => JsonView::Str(s@),
            Json::Array(items) => JsonView::Array(
                Seq::new(
                    items@.len(),
                    |i: int|
                        if 0 <= i < items@.len() {
                            items@[i].view()
                        } else {
                            JsonView::Null
                        },
                ),
            ),
            Json::Object(members) => JsonView::Object(
                Seq::new(
                    members@.len(),
                    |i: int|
                        if 0 <= i < members@.len() {
                            MemberView { name: members@[i].name@, value: members@[i].value.view() }
                        } else {
                            MemberView { name: Seq::empty(), value: JsonView::Null }
                        },
                ),
            ),
        }
    }
}

/// The value of the first member named `key`.
pub open spec fn member(members: Seq<MemberView>, key: Seq<char>) -> Option<JsonView>
    decreases members.len(),
{
    if members.len() == 0 {
        None
    } else if members[0].name == key {
        Some(members[0].value)
    } else {
        member(members.drop_first(), key)
    }
}

impl JsonView {
    /// The member named `key`, if the value is an object that has one.
    pub open spec fn get(self, key: Seq<char>) -> Option<JsonView> {
        match self {
            JsonView::Object(members) => member(members, key),
            _ => None,
        }
    }

    /// The text, if the value is one.
    pub open spec fn as_str(self) -> Option<Seq<char>> {
        match self {
            JsonView::Str(s) => Some(s),
            _ => None,
        }
    }

    /// The items, if the value is an array.
    pub open spec fn as_array(self) -> Option<Seq<JsonView>> {
        match self {
            JsonView::Array(items) => Some(items),
            _ => None,
        }
    }

    /// The text of the member named `key`.
    pub open spec fn text(self, key: Seq<char>) -> Option<Seq<char>> {
        match self.get(key) {
            Some(value) => value.as_str(),
            None => None,
        }
    }

    /// The text of the member named `key`, or `default`.
    pub open spec fn text_or(self, key: Seq<char>, default: Seq<char>) -> Seq<char> {
        match self.text(key) {
            Some(s) => s,
            None => default,
        }
    }
}

impl Json {
    /// The member named `key`, if the value is an object that has one.
    pub fn get(&self, key: &str) -> (res: Option<&Json>)
        ensures
            self@.get(key@) == (match res {
                Some(value) => Some(value@),
                None => None,
            }),
    {
        match self {
            Json::Object(members) => {
                let ghost all = self@->Object_0;
                assert(all.skip(0) == all);
                for i in 0..members.len()
                    invariant
                        self@ == JsonView::Object(all),
                        all.len() == members@.len(),
                        forall|k: int|
                            0 <= k < all.len() ==> (#[trigger] all[k]).name == members@[k].name@
                                && all[k].value == members@[k].value@,
                        self@.get(key@) == member(all.skip(i as int), key@),
                {
                    let ghost rest = all.skip(i as int);
                    assert(rest[0] == all[i as int]);
                    assert(rest.drop_first() == all.skip(i + 1));
                    if same_text(members[i].name.as_str(), key) {
                        return Some(&members[i].value);
                    }
                }
                None
            },
            _ => None,
        }
    }

    /// The text, if the value is one.
    pub fn as_str(&self) -> (res: Option<&str>)
        ensures
            self@.as_str() == (match res {
                Some(s) => Some(s@),
                None => None,
            }),
    {
        match self {
            Json::Str(s) => Some(s.as_str()),
            _ => None,
        }
    }

    /// The items, if the value is an array.
    pub fn as_array(&self) -> (res: Option<&Vec<Json>>)
        ensures
            self@.as_array() == (match res {
                Some(items) => Some(items@.map_values(|item: Json| item@)),
                None => None,
            }),
    {
        match self {
            Json::Array(items) => {
                assert(items@.map_values(|item: Json| item@) =~= self@->Array_0);
                Some(items)
            },
            _ => None,
        }
    }

    /// The text of the member named `key`.
    pub(crate) fn text(&self, key: &str) -> (res: Option<&str>)
        ensures
            self@.text(key@) == (match res {
                Some(s) => Some(s@),
                None => None,
            }),
    {
        match self.get(key) {
            Some(value) => value.as_str(),
            None => None,
        }
    }

    /// The text of the member named `key`, or `default`.
    pub(crate) fn text_or<'a>(&'a self, key: &str, default: &'a str) -> (res: &'a str)
        ensures
            res@ == self@.text_or(key@, default@),
    {
        match self.text(key) {
            Some(s) => s,
            None => default,
        }
    }
}

} // verus!
