//! The value model: records, rule literals and the lookup context are all
//! trees of `Value`.
//!
//! The mathematical model of a `Value` is its view, a `Json`: the same tree
//! with sequences in place of vectors and strings. Every contract on values
//! is stated over views.

use crate::number::Number;
use crate::text::str_eq;
use vstd::prelude::*;

verus! {

/// The literal that makes a comparison pass whatever it is compared with.
pub const WILDCARD: &'static str = "*";

/// A JSON value.
///
/// An object is the list of its members in the order in which they were
/// added. Where two members have the same key the later one counts, as if
/// it had replaced the earlier one.
#[derive(Debug)]
pub enum Value {
    Null,
    Bool(bool),
    Number(Number),
    String(String),
    Array(Vec<Value>),
    Object(Vec<(String, Value)>),
}

/// The model of a `Value`.
pub ghost enum Json {
    Null,
    Bool(bool),
    Number(Number),
    String(Seq<char>),
    Array(Seq<Json>),
    Object(Seq<(Seq<char>, Json)>),
}

impl View for Value {
    type V = Json;

    open spec fn view(&self) -> Json
        decreases self,
    {
        match self {
            Value::Null => Json::Null,
            Value::Bool(b) => Json::Bool(*b),
            Value::Number(n) => Json::Number(*n),
            Value::String(s) => Json::String(s@),
            Value::Array(items) => Json::Array(items_view(items@)),
            Value::Object(members) => Json::Object(members_view(members@)),
        }
    }
}

/// The model of an array's items.
pub open spec fn items_view(items: Seq<Value>) -> Seq<Json>
    decreases items,
{
    Seq::new(
        items.len(),
        |i: int|
            if 0 <= i < items.len() {
                items[i]@
            } else {
                Json::Null
            },
    )
}

/// The model of an object's members.
pub open spec fn members_view(members: Seq<(String, Value)>) -> Seq<(Seq<char>, Json)>
    decreases members,
{
    Seq::new(
        members.len(),
        |i: int|
            if 0 <= i < members.len() {
                (members[i].0@, members[i].1@)
            } else {
                (Seq::empty(), Json::Null)
            },
    )
}

/// The index of the member that binds `key`: the last one with that key.
pub open spec fn binding(members: Seq<(Seq<char>, Json)>, key: Seq<char>) -> Option<int>
    decreases members.len(),
{
    if members.len() == 0 {
        None
    } else if members.last().0 == key {
        Some(members.len() - 1)
    } else {
        binding(members.drop_last(), key)
    }
}

/// Member `i` binds its key: no later member has the same key.
pub open spec fn live(members: Seq<(Seq<char>, Json)>, i: int) -> bool {
    forall|k: int| i < k < members.len() ==> (#[trigger] members[k]).0 != members[i].0
}

/// Some member has the key `key`.
pub open spec fn has_key(members: Seq<(Seq<char>, Json)>, key: Seq<char>) -> bool {
    exists|i: int| 0 <= i < members.len() && (#[trigger] members[i]).0 == key
}

/// What `binding` returns: the last index with the key, or `None` when no
/// member has it.
pub proof fn lemma_binding(members: Seq<(Seq<char>, Json)>, key: Seq<char>)
    ensures
        match binding(members, key) {
            Some(i) => {
                &&& 0 <= i < members.len()
                &&& members[i].0 == key
                &&& live(members, i)
            },
            None => !has_key(members, key),
        },
    decreases members.len(),
{
    if members.len() > 0 && members.last().0 != key {
        let front = members.drop_last();
        lemma_binding(front, key);
        match binding(front, key) {
            Some(i) => {
                assert forall|k: int| i < k < members.len() implies (#[trigger] members[k]).0
                    != members[i].0 by {
                    if k < front.len() {
                        assert(front[k] == members[k]);
                    }
                }
            },
            None => {
                if has_key(members, key) {
                    let i = choose|i: int| 0 <= i < members.len() && (#[trigger] members[i]).0 == key;
                    assert(front[i] == members[i]);
                }
            },
        }
    }
}

/// A live member with the key `key` is the one that `binding` finds.
pub proof fn lemma_live_is_binding(members: Seq<(Seq<char>, Json)>, key: Seq<char>, i: int)
    requires
        0 <= i < members.len(),
        members[i].0 == key,
        live(members, i),
    ensures
        binding(members, key) == Some(i),
{
    lemma_binding(members, key);
}

impl Json {
    /// The literal wildcard: the string `"*"`.
    pub open spec fn wildcard(self) -> bool {
        self matches Json::String(s) && s == WILDCARD@
    }

    /// The value bound to `key`: defined for objects that have the key.
    pub open spec fn member(self, key: Seq<char>) -> Option<Json> {
        match self {
            Json::Object(members) => match binding(members, key) {
                Some(i) => Some(members[i].1),
                None => None,
            },
            _ => None,
        }
    }

    /// Structural equality. Values of different variants are never equal;
    /// numbers are equal as IEEE values; arrays are equal item by item;
    /// objects are equal when they bind the same keys to equal values.
    pub open spec fn same(self, other: Json) -> bool
        decreases self,
    {
        match self {
            Json::Null => other is Null,
            Json::Bool(a) => other matches Json::Bool(b) && a == b,
            Json::Number(a) => other matches Json::Number(b) && a.same_as(b),
            Json::String(a) => other matches Json::String(b) && a == b,
            Json::Array(a) => other matches Json::Array(b) && same_items(a, b),
            Json::Object(a) => other matches Json::Object(b) && same_members(a, b),
        }
    }
}

/// Two arrays are equal: they have one length and equal items at each index.
pub open spec fn same_items(a: Seq<Json>, b: Seq<Json>) -> bool
    decreases a,
{
    &&& a.len() == b.len()
    &&& forall|i: int| 0 <= i < a.len() ==> (#[trigger] a[i]).same(b[i])
}

/// Two objects are equal: each key of one is a key of the other, and the
/// members that bind one key in both hold equal values.
pub open spec fn same_members(a: Seq<(Seq<char>, Json)>, b: Seq<(Seq<char>, Json)>) -> bool
    decreases a,
{
    &&& forall|i: int| 0 <= i < a.len() ==> has_key(b, (#[trigger] a[i]).0)
    &&& forall|j: int| 0 <= j < b.len() ==> has_key(a, (#[trigger] b[j]).0)
    &&& forall|i: int, j: int|
        0 <= i < a.len() && 0 <= j < b.len() && live(a, i) && live(b, j) && (#[trigger] a[i]).0 == (
        #[trigger] b[j]).0 ==> a[i].1.same(b[j].1)
}

/// What two objects bind to one key agrees: both bind it, to equal values,
/// or neither binds it.
pub open spec fn agree_on(
    a: Seq<(Seq<char>, Json)>,
    b: Seq<(Seq<char>, Json)>,
    key: Seq<char>,
) -> bool {
    match binding(a, key) {
        Some(i) => binding(b, key) matches Some(j) && a[i].1.same(b[j].1),
        None => binding(b, key) is None,
    }
}

/// Equality of objects is equality of mappings: two objects are equal
/// exactly when they agree on every key. The order of the members does not
/// count, nor do members that a later member with the same key shadows.
pub proof fn lemma_same_members_is_agreement(
    a: Seq<(Seq<char>, Json)>,
    b: Seq<(Seq<char>, Json)>,
)
    ensures
        same_members(a, b) <==> forall|key: Seq<char>| agree_on(a, b, key),
{
    if same_members(a, b) {
        assert forall|key: Seq<char>| agree_on(a, b, key) by {
            lemma_binding(a, key);
            lemma_binding(b, key);
            match binding(a, key) {
                Some(i) => {
                    assert(has_key(b, a[i].0));
                },
                None => {
                    if let Some(j) = binding(b, key) {
                        assert(has_key(a, b[j].0));
                    }
                },
            }
        }
    }
    if forall|key: Seq<char>| agree_on(a, b, key) {
        assert forall|i: int| 0 <= i < a.len() implies has_key(b, (#[trigger] a[i]).0) by {
            let key = a[i].0;
            assert(agree_on(a, b, key));
            lemma_binding(a, key);
            lemma_binding(b, key);
            assert(has_key(a, key));
            let j = binding(b, key)->Some_0;
            assert(b[j].0 == key);
        }
        assert forall|j: int| 0 <= j < b.len() implies has_key(a, (#[trigger] b[j]).0) by {
            let key = b[j].0;
            assert(agree_on(a, b, key));
            lemma_binding(a, key);
            lemma_binding(b, key);
            assert(has_key(b, key));
            let i = binding(a, key)->Some_0;
            assert(a[i].0 == key);
        }
        assert forall|i: int, j: int|
            0 <= i < a.len() && 0 <= j < b.len() && live(a, i) && live(b, j) && (#[trigger] a[i]).0 == (
            #[trigger] b[j]).0 implies a[i].1.same(b[j].1) by {
            let key = a[i].0;
            assert(agree_on(a, b, key));
            lemma_live_is_binding(a, key, i);
            lemma_live_is_binding(b, key, j);
        }
    }
}

impl Value {
    /// Whether this value is the literal wildcard.
    pub fn is_wildcard(&self) -> (wildcard: bool)
        ensures
            wildcard == self@.wildcard(),
    {
        match self {
            Value::String(s) => str_eq(s.as_str(), WILDCARD),
            _ => false,
        }
    }

    /// Structural equality of two values.
    pub fn equals(&self, other: &Value) -> (equal: bool)
        ensures
            equal == self@.same(other@),
        decreases self,
    {
        match (self, other) {
            (Value::Null, Value::Null) => true,
            (Value::Bool(a), Value::Bool(b)) => *a == *b,
            (Value::Number(a), Value::Number(b)) => a.equals(b),
            (Value::String(a), Value::String(b)) => str_eq(a.as_str(), b.as_str()),
            (Value::Array(a), Value::Array(b)) => items_equal(a, b),
            (Value::Object(a), Value::Object(b)) => members_equal(a, b),
            _ => false,
        }
    }

    /// The value that an object binds to `key`; `None` for an object without
    /// that key and for every value that is no object.
    pub fn get<'a>(&'a self, key: &str) -> (found: Option<&'a Value>)
        ensures
            match found {
                Some(value) => self@.member(key@) == Some(value@),
                None => self@.member(key@) is None,
            },
    {
        match self {
            Value::Object(members) => {
                match position(members, key) {
                    Some(i) => Some(&members[i].1),
                    None => None,
                }
            },
            _ => None,
        }
    }
}

/// Equality of two arrays, item by item.
fn items_equal(a: &Vec<Value>, b: &Vec<Value>) -> (equal: bool)
    ensures
        equal == same_items(items_view(a@), items_view(b@)),
    decreases a,
{
    if a.len() != b.len() {
        return false;
    }
    let ghost x = items_view(a@);
    let ghost y = items_view(b@);
    let mut i: usize = 0;
    while i < a.len()
        invariant
            i <= a@.len(),
            a@.len() == b@.len(),
            x == items_view(a@),
            y == items_view(b@),
            forall|k: int| 0 <= k < i ==> (#[trigger] x[k]).same(y[k]),
        decreases a@.len() - i,
    {
        if !a[i].equals(&b[i]) {
            assert(!x[i as int].same(y[i as int]));
            return false;
        }
        i = i + 1;
    }
    true
}

/// Equality of two objects: the same keys, bound to equal values.
fn members_equal(a: &Vec<(String, Value)>, b: &Vec<(String, Value)>) -> (equal: bool)
    ensures
        equal == same_members(members_view(a@), members_view(b@)),
    decreases a,
{
    let ghost x = members_view(a@);
    let ghost y = members_view(b@);
    let mut i: usize = 0;
    while i < a.len()
        invariant
            i <= a@.len(),
            x == members_view(a@),
            y == members_view(b@),
            forall|k: int| 0 <= k < i ==> has_key(y, (#[trigger] x[k]).0),
            forall|k: int, j: int|
                0 <= k < i && 0 <= j < y.len() && live(x, k) && live(y, j) && (#[trigger] x[k]).0 == (
                #[trigger] y[j]).0 ==> x[k].1.same(y[j].1),
        decreases a@.len() - i,
    {
        let key: &str = a[i].0.as_str();
        proof {
            lemma_binding(y, key@);
            lemma_binding(x, key@);
        }
        match position(b, key) {
            None => {
                assert(!has_key(y, x[i as int].0));
                return false;
            },
            Some(j) => {
                let own: Option<usize> = position(a, key);
                let is_live: bool = match own {
                    Some(at) => at == i,
                    None => false,
                };
                if is_live {
                    if !a[i].1.equals(&b[j].1) {
                        return false;
                    }
                }
                assert forall|m: int|
                    0 <= m < y.len() && live(x, i as int) && live(y, m) && x[i as int].0 == (
                    #[trigger] y[m]).0 implies x[i as int].1.same(y[m].1) by {
                    lemma_live_is_binding(y, key@, m);
                    lemma_live_is_binding(x, key@, i as int);
                }
            },
        }
        i = i + 1;
    }
    let mut j: usize = 0;
    while j < b.len()
        invariant
            j <= b@.len(),
            x == members_view(a@),
            y == members_view(b@),
            forall|k: int| 0 <= k < j ==> has_key(x, (#[trigger] y[k]).0),
        decreases b@.len() - j,
    {
        let key: &str = b[j].0.as_str();
        proof {
            lemma_binding(x, key@);
        }
        if position(a, key).is_none() {
            assert(!has_key(x, y[j as int].0));
            return false;
        }
        j = j + 1;
    }
    true
}

impl PartialEq for Value {
    /// `==` on values is structural equality.
    fn eq(&self, other: &Value) -> (equal: bool) {
        self.equals(other)
    }
}

impl vstd::std_specs::cmp::PartialEqSpecImpl for Value {
    open spec fn obeys_eq_spec() -> bool {
        true
    }

    open spec fn eq_spec(&self, other: &Value) -> bool {
        self@.same(other@)
    }
}

impl Clone for Value {
    /// A deep copy.
    #[verifier::loop_isolation(false)]
    fn clone(&self) -> (copy: Value)
        ensures
            copy@ == self@,
        decreases self,
    {
        match self {
            Value::Null => Value::Null,
            Value::Bool(b) => Value::Bool(*b),
            Value::Number(n) => Value::Number(*n),
            Value::String(s) => Value::String(s.clone()),
            Value::Array(items) => {
                let mut copies: Vec<Value> = Vec::new();
                let mut i: usize = 0;
                while i < items.len()
                    invariant
                        i <= items@.len(),
                        copies@.len() == i,
                        forall|k: int| 0 <= k < i ==> (#[trigger] copies@[k])@ == items@[k]@,
                    decreases items@.len() - i,
                {
                    copies.push(items[i].clone());
                    i = i + 1;
                }
                let copy = Value::Array(copies);
                proof {
                    assert(items_view(copies@) =~= items_view(items@));
                }
                copy
            },
            Value::Object(members) => {
                let mut copies: Vec<(String, Value)> = Vec::new();
                let mut i: usize = 0;
                while i < members.len()
                    invariant
                        i <= members@.len(),
                        copies@.len() == i,
                        forall|k: int|
                            0 <= k < i ==> (#[trigger] copies@[k]).0@ == members@[k].0@
                                && copies@[k].1@ == members@[k].1@,
                    decreases members@.len() - i,
                {
                    copies.push((members[i].0.clone(), members[i].1.clone()));
                    i = i + 1;
                }
                let copy = Value::Object(copies);
                proof {
                    assert(members_view(copies@) =~= members_view(members@));
                }
                copy
            },
        }
    }
}

/// The index of the member that binds `key`.
pub(crate) fn position(members: &Vec<(String, Value)>, key: &str) -> (found: Option<usize>)
    ensures
        match found {
            Some(i) => binding(members_view(members@), key@) == Some(i as int) && i < members@.len(),
            None => binding(members_view(members@), key@) is None,
        },
{
    let ghost model = members_view(members@);
    let mut i: usize = members.len();
    while i > 0
        invariant
            i <= members@.len(),
            model == members_view(members@),
            forall|k: int| i <= k < model.len() ==> (#[trigger] model[k]).0 != key@,
        decreases i,
    {
        i = i - 1;
        if str_eq(members[i].0.as_str(), key) {
            proof {
                lemma_live_is_binding(model, key@, i as int);
            }
            return Some(i);
        }
    }
    proof {
        lemma_binding(model, key@);
    }
    None
}

} // verus!
