//! JSON values and where to find one inside another.

use vstd::prelude::*;

use crate::error::{Error, ErrorKind, ErrorView, KindView};
use crate::text::{debug_quote, debug_quoted, decimal, same, to_decimal};

verus! {

/// A JSON value. The members of an object are in the order in which they are
/// walked, a number is held by its text.
pub enum Json {
    Null,
    Bool(bool),
    Number(String),
    Text(String),
    Array(Vec<Json>),
    Object(Vec<Member>),
}

/// A member of an object.
pub struct Member {
    pub name: String,
    pub value: Json,
}

/// The value of a [Json].
#[verifier::ext_equal]
pub enum JsonView {
    Null,
    Bool(bool),
    Number(Seq<char>),
    Text(Seq<char>),
    Array(Seq<JsonView>),
    Object(Seq<MemberView>),
}

/// The value of a [Member].
#[verifier::ext_equal]
pub struct MemberView {
    pub name: Seq<char>,
    pub value: JsonView,
}

impl View for Json {
    type V = JsonView;

    open spec fn view(&self) -> JsonView
        decreases self,
    {
        match self {
            Json::Null => JsonView::Null,
            Json::Bool(b) => JsonView::Bool(*b),
            Json::Number(s) => JsonView::Number(s@),
            Json::Text(s) => JsonView::Text(s@),
            Json::Array(v) => JsonView::Array(
                Seq::new(
                    v@.len(),
                    |i: int|
                        if 0 <= i < v@.len() {
                            v@[i]@
                        } else {
                            JsonView::Null
                        },
                ),
            ),
            Json::Object(v) => JsonView::Object(
                Seq::new(
                    v@.len(),
                    |i: int|
                        if 0 <= i < v@.len() {
                            MemberView { name: v@[i].name@, value: v@[i].value@ }
                        } else {
                            arbitrary()
                        },
                ),
            ),
        }
    }
}

#[verifier::external_type_specification]
#[verifier::external_body]
pub struct ExJsonValue(serde_json::Value);

/// What a `serde_json::Value` holds.
pub uninterp spec fn value_contents(v: serde_json::Value) -> JsonView;

/// The value that `serde_json` reads from a text, or the text that shows why it
/// refuses to.
pub uninterp spec fn json_parsed(text: Seq<char>) -> Result<JsonView, Seq<char>>;

/// Calls `serde_json::from_str` for a `Value`. The contract claims that whether
/// the text is accepted, the contents of the value that is read from it, and what
/// the `Debug` of a refusal shows depend on the characters of the text alone.
#[verifier::external_body]
fn read_value(text: &str) -> (r: Result<serde_json::Value, String>)
    ensures
        match r {
            Ok(v) => json_parsed(text@) == Ok::<JsonView, Seq<char>>(value_contents(v)),
            Err(e) => json_parsed(text@) == Err::<JsonView, Seq<char>>(e@),
        },
{
    serde_json::from_str(text).map_err(|e| format!("{:?}", e))
}

/// Walks a `serde_json::Value`: each element of an array and each member of an
/// object, in the order in which `serde_json` walks them. A number is held by
/// the text that its `Display` gives.
#[verifier::external_body]
fn json_of(v: &serde_json::Value) -> (r: Json)
    ensures
        r@ == value_contents(*v),
{
    match v {
        serde_json::Value::Null => Json::Null,
        serde_json::Value::Bool(b) => Json::Bool(*b),
        serde_json::Value::Number(n) => Json::Number(n.to_string()),
        serde_json::Value::String(s) => Json::Text(s.clone()),
        serde_json::Value::Array(a) => Json::Array(a.iter().map(|x| json_of(x)).collect()),
        serde_json::Value::Object(o) => Json::Object(
            o.iter().map(|(k, x)| Member { name: k.clone(), value: json_of(x) }).collect(),
        ),
    }
}

/// Reads a JSON value from a text.
pub fn parse_json(text: &str) -> (r: Result<Json, Error>)
    ensures
        match json_parsed(text@) {
            Ok(v) => r is Ok && r->Ok_0@ == v,
            Err(m) => r is Err && r->Err_0@ == ErrorView::of(KindView::SerdeJson(m)),
        },
{
    match read_value(text) {
        Ok(v) => Ok(json_of(&v)),
        Err(e) => Err(Error::from_kind_locationless(ErrorKind::SerdeJsonError(e))),
    }
}

/// The index of the member of that name, the first if there are several.
pub open spec fn member_index(members: Seq<MemberView>, key: Seq<char>) -> Option<int>
    decreases members.len(),
{
    if members.len() == 0 {
        None
    } else {
        match member_index(members.drop_last(), key) {
            Some(i) => Some(i),
            None => if members.last().name == key {
                Some(members.len() - 1)
            } else {
                None
            },
        }
    }
}

impl JsonView {
    /// The member of that name, if this is an object that has it.
    pub open spec fn member(self, key: Seq<char>) -> Option<JsonView> {
        match self {
            JsonView::Object(members) => match member_index(members, key) {
                Some(i) => Some(members[i].value),
                None => None,
            },
            _ => None,
        }
    }

    /// The element at that index, if this is an array that has it.
    pub open spec fn element(self, i: nat) -> Option<JsonView> {
        match self {
            JsonView::Array(v) => if i < v.len() {
                Some(v[i as int])
            } else {
                None
            },
            _ => None,
        }
    }

    /// The value with another value for the member of that name.
    pub open spec fn with_member(self, key: Seq<char>, value: JsonView) -> JsonView {
        match self {
            JsonView::Object(members) => match member_index(members, key) {
                Some(i) => JsonView::Object(
                    members.update(i, MemberView { name: members[i].name, value }),
                ),
                None => self,
            },
            _ => self,
        }
    }

    /// The value with another value for the element at that index.
    pub open spec fn with_element(self, i: nat, value: JsonView) -> JsonView {
        match self {
            JsonView::Array(v) => JsonView::Array(v.update(i as int, value)),
            _ => self,
        }
    }
}

/// The text of a failed step into a value, `shown` being the expression that the
/// steps began with.
pub open spec fn indexing_failed(shown: Seq<char>, index: Seq<char>) -> Seq<char> {
    "stacked_get("@ + shown + " ... ["@ + index + "] ...) -> indexing failed"@
}

/// The text of a failed step into a value that is to be changed.
pub open spec fn mut_indexing_failed(shown: Seq<char>, index: Seq<char>) -> Seq<char> {
    "stacked_get_mut("@ + shown + " ... ["@ + index + "] ...) -> indexing failed"@
}

fn indexing_error(head: &str, shown: &str, index: &str) -> (r: Error)
    ensures
        r@ == ErrorView::message(
            head@ + shown@ + " ... ["@ + index@ + "] ...) -> indexing failed"@,
        ),
{
    let mut text: String = head.to_owned();
    text.append(shown);
    text.append(" ... [");
    text.append(index);
    text.append("] ...) -> indexing failed");
    Error::from_text(text)
}

impl Json {
    /// The index of the member of that name, the first if there are several
    fn find_member(&self, key: &str) -> (r: Option<usize>)
        ensures
            match r {
                Some(i) => {
                    &&& self matches Json::Object(v) && i < v@.len()
                    &&& member_index(self@->Object_0, key@) == Some(i as int)
                },
                None => self@.member(key@) is None,
            },
    {
        if let Json::Object(v) = self {
            let ghost members = self@->Object_0;
            proof {
                lemma_object_view(*self, *v);
            }
            let mut i: usize = 0;
            assert(members.take(0) =~= Seq::empty());
            while i < v.len()
                invariant
                    i <= v@.len(),
                    self@ == JsonView::Object(members),
                    members.len() == v@.len(),
                    *self == Json::Object(*v),
                    forall|k: int|
                        0 <= k < v@.len() ==> #[trigger] members[k] == (MemberView {
                            name: v@[k].name@,
                            value: v@[k].value@,
                        }),
                    member_index(members.take(i as int), key@) is None,
                decreases v@.len() - i,
            {
                assert(members.take(i + 1).drop_last() =~= members.take(i as int));
                assert(members.take(i + 1).last() == members[i as int]);
                if same(v[i].name.as_str(), key) {
                    proof {
                        lemma_member_index_prefix(members, key@, i + 1);
                    }
                    return Some(i);
                }
                i = i + 1;
            }
            assert(members.take(i as int) =~= members);
        }
        None
    }

    /// Steps into the member of an object. The normal indexing of values
    /// panics, this returns a formatted error, which shows the expression that the
    /// steps began with.
    pub fn get_member(&self, shown: &str, key: &str) -> (r: Result<&Json, Error>)
        ensures
            match self@.member(key@) {
                Some(v) => r is Ok && r->Ok_0@ == v,
                None => r is Err && r->Err_0@ == ErrorView::message(
                    indexing_failed(shown@, debug_quoted(key@)),
                ),
            },
    {
        let found: Option<usize> = self.find_member(key);
        if let Json::Object(v) = self {
            if let Some(i) = found {
                proof {
                    lemma_object_view(*self, *v);
                }
                return Ok(&v[i].value);
            }
        }
        Err(indexing_error("stacked_get(", shown, debug_quote(key).as_str()))
    }

    /// Steps into the element of an array
    pub fn get_element(&self, shown: &str, i: usize) -> (r: Result<&Json, Error>)
        ensures
            match self@.element(i as nat) {
                Some(v) => r is Ok && r->Ok_0@ == v,
                None => r is Err && r->Err_0@ == ErrorView::message(
                    indexing_failed(shown@, decimal(i as nat)),
                ),
            },
    {
        if let Json::Array(v) = self {
            if i < v.len() {
                return Ok(&v[i]);
            }
        }
        Err(indexing_error("stacked_get(", shown, to_decimal(i as u64).as_str()))
    }

    /// Steps into the member of an object, to change it
    pub fn get_member_mut(&mut self, shown: &str, key: &str) -> (r: Result<&mut Json, Error>)
        ensures
            match old(self)@.member(key@) {
                Some(v) => {
                    &&& r is Ok
                    &&& r->Ok_0@ == v
                    &&& final(self)@ == old(self)@.with_member(key@, final(r->Ok_0)@)
                },
                None => {
                    &&& *final(self) == *old(self)
                    &&& r is Err
                    &&& r->Err_0@ == ErrorView::message(mut_indexing_failed(shown@, debug_quoted(key@)))
                },
            },
    {
        let found: Option<usize> = self.find_member(key);
        proof {
            lemma_with_member();
        }
        match found {
            Some(i) => match self {
                Json::Object(v) => Ok(&mut v[i].value),
                _ => Err(indexing_error("stacked_get_mut(", shown, debug_quote(key).as_str())),
            },
            None => Err(indexing_error("stacked_get_mut(", shown, debug_quote(key).as_str())),
        }
    }

    /// Steps into the element of an array, to change it
    pub fn get_element_mut(&mut self, shown: &str, i: usize) -> (r: Result<&mut Json, Error>)
        ensures
            match old(self)@.element(i as nat) {
                Some(v) => {
                    &&& r is Ok
                    &&& r->Ok_0@ == v
                    &&& final(self)@ == old(self)@.with_element(i as nat, final(r->Ok_0)@)
                },
                None => {
                    &&& *final(self) == *old(self)
                    &&& r is Err
                    &&& r->Err_0@ == ErrorView::message(mut_indexing_failed(shown@, decimal(i as nat)))
                },
            },
    {
        proof {
            lemma_with_element();
        }
        if let Json::Array(v) = self {
            if i < v.len() {
                return Ok(&mut v[i]);
            }
        }
        Err(indexing_error("stacked_get_mut(", shown, to_decimal(i as u64).as_str()))
    }
}

/// A member or an element that has been changed is read as what it was changed to,
/// and the others are read as before.
pub proof fn changes_are_read(
    v: JsonView,
    key: Seq<char>,
    other_key: Seq<char>,
    i: nat,
    other: nat,
    value: JsonView,
)
    ensures
        v.member(key) is Some ==> v.with_member(key, value).member(key) == Some(value),
        other_key != key ==> v.with_member(key, value).member(other_key) == v.member(other_key),
        v.element(i) is Some ==> v.with_element(i, value).element(i) == Some(value),
        v.element(i) is Some && other != i ==> v.with_element(i, value).element(other)
            == v.element(other),
{
    if let JsonView::Object(members) = v {
        lemma_member_index(members, key);
        lemma_member_index(members, other_key);
        if let Some(at) = member_index(members, key) {
            let changed = members.update(at, MemberView { name: members[at].name, value });
            lemma_same_names(members, changed, key);
            lemma_same_names(members, changed, other_key);
        }
    }
}

proof fn lemma_member_index(members: Seq<MemberView>, key: Seq<char>)
    ensures
        member_index(members, key) matches Some(i) ==> 0 <= i < members.len() && members[i].name
            == key,
    decreases members.len(),
{
    if members.len() > 0 {
        lemma_member_index(members.drop_last(), key);
    }
}

proof fn lemma_same_names(a: Seq<MemberView>, b: Seq<MemberView>, key: Seq<char>)
    requires
        a.len() == b.len(),
        forall|i: int| 0 <= i < a.len() ==> (#[trigger] a[i]).name == b[i].name,
    ensures
        member_index(a, key) == member_index(b, key),
    decreases a.len(),
{
    if a.len() > 0 {
        assert forall|i: int| 0 <= i < a.drop_last().len() implies (#[trigger] a.drop_last()[i]).name
            == b.drop_last()[i].name by {
            assert(a[i].name == b[i].name);
        }
        lemma_same_names(a.drop_last(), b.drop_last(), key);
        assert(a[a.len() - 1].name == b[b.len() - 1].name);
    }
}

/// What the view of an object holds.
pub proof fn lemma_object_view(j: Json, v: Vec<Member>)
    requires
        j == Json::Object(v),
    ensures
        j@ is Object,
        j@->Object_0.len() == v@.len(),
        forall|k: int|
            0 <= k < v@.len() ==> #[trigger] j@->Object_0[k] == (MemberView {
                name: v@[k].name@,
                value: v@[k].value@,
            }),
{
}

proof fn lemma_with_element()
    ensures
        forall|a: Json, b: Json, i: nat, x: Json|
            #![trigger a@.with_element(i, x@), b@]
            a is Array && b is Array && i < a->Array_0@.len() && b->Array_0@
                == a->Array_0@.update(i as int, x) ==> b@ == a@.with_element(i, x@),
{
    assert forall|a: Json, b: Json, i: nat, x: Json|
        #![trigger a@.with_element(i, x@), b@]
        a is Array && b is Array && i < a->Array_0@.len() && b->Array_0@
            == a->Array_0@.update(i as int, x) implies b@ == a@.with_element(i, x@) by {
        assert(b@->Array_0 =~= a@->Array_0.update(i as int, x@));
    }
}

/// The members are those of the other object, but for the value of the first
/// that has the name.
spec fn members_updated(a: Json, b: Json, key: Seq<char>, x: Json) -> bool {
    match (a, b) {
        (Json::Object(v), Json::Object(w)) => match member_index(a@->Object_0, key) {
            Some(i) => 0 <= i < v@.len() && w@ == v@.update(
                i,
                Member { name: v@[i].name, value: x },
            ),
            None => false,
        },
        _ => false,
    }
}

proof fn lemma_with_member()
    ensures
        forall|a: Json, b: Json, key: Seq<char>, x: Json|
            #![trigger a@.with_member(key, x@), b@]
            members_updated(a, b, key, x) ==> b@ == a@.with_member(key, x@),
{
    assert forall|a: Json, b: Json, key: Seq<char>, x: Json|
        #![trigger a@.with_member(key, x@), b@]
        members_updated(a, b, key, x) implies b@ == a@.with_member(key, x@) by {
        lemma_object_view(a, a->Object_0);
        lemma_object_view(b, b->Object_0);
        assert(b@->Object_0 =~= a@.with_member(key, x@)->Object_0);
    }
}

proof fn lemma_member_index_prefix(
    members: Seq<MemberView>,
    key: Seq<char>,
    n: int,
)
    requires
        0 <= n <= members.len(),
        member_index(members.take(n), key) is Some,
    ensures
        member_index(members, key) == member_index(members.take(n), key),
    decreases members.len() - n,
{
    if n < members.len() {
        assert(members.take(n + 1).drop_last() =~= members.take(n));
        lemma_member_index_prefix(members, key, n + 1);
    } else {
        assert(members.take(n) =~= members);
    }
}

/// Stepping into an object finds the first member of the name, if it has one; stepping
/// into an array finds the element at the index; nothing is found in any other value.
pub proof fn steps_find_members_and_elements(v: JsonView, key: Seq<char>, i: nat)
    ensures
        v matches JsonView::Object(members) ==> match v.member(key) {
            Some(value) => exists|k: int|
                {
                    &&& 0 <= k < members.len()
                    &&& (#[trigger] members[k]).name == key
                    &&& members[k].value == value
                    &&& forall|j: int| 0 <= j < k ==> (#[trigger] members[j]).name != key
                },
            None => forall|j: int|
                0 <= j < members.len() ==> (#[trigger] members[j]).name != key,
        },
        v matches JsonView::Array(elements) ==> v.element(i) == if i < elements.len() {
            Some(elements[i as int])
        } else {
            None
        },
        !(v is Object) ==> v.member(key) is None,
        !(v is Array) ==> v.element(i) is None,
{
    if let JsonView::Object(members) = v {
        lemma_first_member(members, key);
        if let Some(k) = member_index(members, key) {
            assert(members[k].name == key);
        }
    }
}

proof fn lemma_first_member(members: Seq<MemberView>, key: Seq<char>)
    ensures
        match member_index(members, key) {
            Some(k) => {
                &&& 0 <= k < members.len()
                &&& members[k].name == key
                &&& forall|j: int| 0 <= j < k ==> (#[trigger] members[j]).name != key
            },
            None => forall|j: int| 0 <= j < members.len() ==> (#[trigger] members[j]).name != key,
        },
    decreases members.len(),
{
    if members.len() > 0 {
        let front = members.drop_last();
        lemma_first_member(front, key);
        assert(forall|j: int| 0 <= j < front.len() ==> #[trigger] members[j] == front[j]);
        if let Some(k) = member_index(front, key) {
            assert(members[k] == front[k]);
        }
    }
}

/// The error of a failed step tells the step and what the steps began with.
pub proof fn failed_steps_are_told(shown: Seq<char>, index: Seq<char>)
    ensures
        indexing_failed(shown, index) == "stacked_get("@ + shown + " ... ["@ + index
            + "] ...) -> indexing failed"@,
        mut_indexing_failed(shown, index) == "stacked_get_mut("@ + shown + " ... ["@ + index
            + "] ...) -> indexing failed"@,
{
}

} // verus!
