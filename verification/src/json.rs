//! JSON values, as tool inputs arrive.
use vstd::prelude::*;

use crate::text::str_eq;

verus! {

/// A JSON value. A number is held as its literal text; the members of an object
/// are held in order, and where a key occurs twice the first member counts.
#[derive(Debug)]
pub enum Json {
    Null,
    Bool(bool),
    Number(String),
    Text(String),
    Array(Vec<Json>),
    Object(Vec<Member>),
}

/// A member of an object.
#[derive(Debug)]
pub struct Member {
    pub key: String,
    pub value: Json,
}

/// What a JSON value holds.
pub enum JsonView {
    Null,
    Bool(bool),
    Number(Seq<char>),
    Text(Seq<char>),
    Array(Seq<JsonView>),
    Object(Seq<MemberView>),
}

/// What a member of an object holds.
pub struct MemberView {
    pub key: Seq<char>,
    pub value: JsonView,
}

impl View for Json {
    type V = JsonView;

    open spec fn view(&self) -> JsonView
        decreases self,
    {
        match self {
            Json::Null => JsonView::Null,
            Json::Bool(b) => JsonView::Bool(*b),
            Json::Number(n) => JsonView::Number(n@),
            Json::Text(s) => JsonView::Text(s@),
            Json::Array(items) => JsonView::Array(
                Seq::new(
                    items@.len(),
                    |i: int|
                        if 0 <= i < items@.len() {
                            items@[i].view()
                        } else {
                            JsonView::Null
                        },
                ),
            ),
            Json::Object(members) => JsonView::Object(
                Seq::new(
                    members@.len(),
                    |i: int|
                        if 0 <= i < members@.len() {
                            MemberView { key: members@[i].key@, value: members@[i].value.view() }
                        } else {
                            MemberView { key: Seq::empty(), value: JsonView::Null }
                        },
                ),
            ),
        }
    }
}

/// The position of the first member with the given key, or the number of
/// members where none has it.
pub open spec fn first_member(members: Seq<MemberView>, key: Seq<char>) -> int
    decreases members.len(),
{
    if members.len() == 0 || members[0].key == key {
        0
    } else {
        1 + first_member(members.drop_first(), key)
    }
}

impl JsonView {
    /// The member of an object with the given key.
    pub open spec fn member(self, key: Seq<char>) -> Option<JsonView> {
        match self {
            JsonView::Object(members) => {
                let i = first_member(members, key);
                if i < members.len() {
                    Some(members[i].value)
                } else {
                    None
                }
            },
            _ => None,
        }
    }

    /// The text that an object holds under the given key.
    pub open spec fn text_member(self, key: Seq<char>) -> Option<Seq<char>> {
        match self.member(key) {
            Some(JsonView::Text(s)) => Some(s),
            _ => None,
        }
    }
}

/// Looking past members with other keys.
proof fn lemma_first_member_skip(members: Seq<MemberView>, key: Seq<char>, n: int)
    requires
        0 <= n <= members.len(),
        forall|j: int| 0 <= j < n ==> (#[trigger] members[j]).key != key,
    ensures
        first_member(members, key) == n + first_member(members.skip(n), key),
    decreases n,
{
    if n == 0 {
        assert(members.skip(0) == members);
    } else {
        let rest = members.drop_first();
        assert forall|j: int| 0 <= j < n - 1 implies (#[trigger] rest[j]).key != key by {
            assert(rest[j] == members[j + 1]);
        }
        lemma_first_member_skip(rest, key, n - 1);
        assert(rest.skip(n - 1) == members.skip(n));
    }
}

impl Json {
    /// The member of an object with the given key; nothing where there is none,
    /// or where the value is no object.
    pub fn get(&self, key: &str) -> (r: Option<&Json>)
        ensures
            match r {
                Some(v) => self@.member(key@) == Some(v@),
                None => self@.member(key@) is None,
            },
    {
        match self {
            Json::Object(members) => {
                let ghost seen = self@->Object_0;
                let mut i: usize = 0;
                while i < members.len()
                    invariant
                        i <= members@.len(),
                        self@ == JsonView::Object(seen),
                        seen.len() == members@.len(),
                        forall|j: int|
                            0 <= j < seen.len() ==> (#[trigger] seen[j]).key == members@[j].key@ && seen[j].value
                                == members@[j].value@,
                        forall|j: int| 0 <= j < i ==> (#[trigger] seen[j]).key != key@,
                    decreases members@.len() - i,
                {
                    assert(seen[i as int].key == members@[i as int].key@);
                    if str_eq(members[i].key.as_str(), key) {
                        proof {
                            lemma_first_member_skip(seen, key@, i as int);
                            assert(seen.skip(i as int)[0] == seen[i as int]);
                        }
                        return Some(&members[i].value);
                    }
                    i = i + 1;
                }
                proof {
                    lemma_first_member_skip(seen, key@, seen.len() as int);
                }
                None
            },
            _ => None,
        }
    }

    /// The text of a string value; nothing of any other.
    pub fn as_str(&self) -> (r: Option<&str>)
        ensures
            match r {
                Some(s) => self@ == JsonView::Text(s@),
                None => !(self@ is Text),
            },
    {
        match self {
            Json::Text(s) => Some(s.as_str()),
            _ => None,
        }
    }

    /// The text that an object holds under the given key.
    pub fn text_field(&self, key: &str) -> (r: Option<&str>)
        ensures
            match r {
                Some(s) => self@.text_member(key@) == Some(s@),
                None => self@.text_member(key@) is None,
            },
    {
        match self.get(key) {
            Some(v) => v.as_str(),
            None => None,
        }
    }
}

// ── laws ───────────────────────────────────────────────────────────

/// What an object holds under a key is the value of the first member with the key.
pub proof fn law_member_is_first(members: Seq<MemberView>, key: Seq<char>, i: int)
    requires
        0 <= i < members.len(),
        members[i].key == key,
        forall|j: int| 0 <= j < i ==> (#[trigger] members[j]).key != key,
    ensures
        JsonView::Object(members).member(key) == Some(members[i].value),
        members[i].value matches JsonView::Text(s) ==> JsonView::Object(members).text_member(key)
            == Some(s),
        !(members[i].value is Text) ==> JsonView::Object(members).text_member(key) is None,
{
    lemma_first_member_skip(members, key, i);
    assert(members.skip(i)[0] == members[i]);
}

/// An object without a member of the key holds nothing under it, nor does any value that
/// is no object.
pub proof fn law_no_member(value: JsonView, key: Seq<char>)
    requires
        value matches JsonView::Object(members) ==> forall|j: int|
            0 <= j < members.len() ==> (#[trigger] members[j]).key != key,
    ensures
        value.member(key) is None,
        value.text_member(key) is None,
{
    if let JsonView::Object(members) = value {
        lemma_first_member_skip(members, key, members.len() as int);
    }
}

/// The view of a value shows all that is in it, each part in its place.
pub proof fn law_view(value: Json)
    ensures
        match value {
            Json::Null => value@ == JsonView::Null,
            Json::Bool(b) => value@ == JsonView::Bool(b),
            Json::Number(n) => value@ == JsonView::Number(n@),
            Json::Text(s) => value@ == JsonView::Text(s@),
            Json::Array(items) => value@ matches JsonView::Array(seen) && seen.len()
                == items@.len() && forall|i: int|
                0 <= i < items@.len() ==> #[trigger] seen[i] == items@[i]@,
            Json::Object(members) => value@ matches JsonView::Object(seen) && seen.len()
                == members@.len() && forall|i: int|
                0 <= i < members@.len() ==> (#[trigger] seen[i]).key == members@[i].key@
                    && seen[i].value == members@[i].value@,
        },
{
}

} // verus!
