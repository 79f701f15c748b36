//! Plain values carried by documents: doubles by bit pattern, and JSON trees.

use vstd::prelude::*;
use vstd::string::*;

verus! {

/// A copy that keeps the deep view.
pub trait Duplicate: DeepView + Sized {
    /// Copies the value.
    fn duplicate(&self) -> (copy: Self)
        ensures
            copy.deep_view() == self.deep_view(),
    ;
}

/// A double-precision number, held by its IEEE-754 bit pattern.
#[derive(Copy, Clone, Debug, PartialEq, Eq, Structural)]
pub struct Double {
    /// The bit pattern.
    pub bits: u64,
}

impl DeepView for Double {
    type V = Double;

    open spec fn deep_view(&self) -> Double {
        *self
    }
}

impl Duplicate for Double {
    fn duplicate(&self) -> (copy: Self) {
        *self
    }
}

impl Duplicate for u64 {
    fn duplicate(&self) -> (copy: Self) {
        *self
    }
}

impl Duplicate for String {
    fn duplicate(&self) -> (copy: Self) {
        self.clone()
    }
}

impl Double {
    /// Whether the bit pattern is that of a number, neither infinite nor NaN.
    pub open spec fn finite(self) -> bool {
        (self.bits >> 52u64) & 0x7ffu64 != 0x7ffu64
    }

    /// Whether the number is neither infinite nor NaN.
    pub fn is_finite(self) -> (b: bool)
        ensures
            b == self.finite(),
    {
        (self.bits >> 52u64) & 0x7ffu64 != 0x7ffu64
    }

    /// The JSON value of the number: `null` when it is infinite or NaN.
    pub fn into_json(self) -> (j: Json)
        ensures
            j.deep_view() == double_json(self),
    {
        if self.is_finite() {
            Json::Real(self)
        } else {
            Json::Null
        }
    }
}

/// The JSON value of a double: `null` when it is infinite or NaN.
pub open spec fn double_json(x: Double) -> JsonView {
    if x.finite() {
        JsonView::Real(x)
    } else {
        JsonView::Null
    }
}

/// A JSON value.
#[derive(Debug)]
pub enum Json {
    /// `null`.
    Null,
    /// `true` or `false`.
    Bool(bool),
    /// An unsigned integer.
    UInt(u64),
    /// A signed integer.
    Int(i64),
    /// Any other number.
    Real(Double),
    /// A string.
    Str(String),
    /// An array.
    Array(Vec<Json>),
    /// An object, its members in order.
    Object(Vec<(String, Json)>),
}

/// What a [`Json`] stands for.
pub enum JsonView {
    /// `null`.
    Null,
    /// `true` or `false`.
    Bool(bool),
    /// An integer.
    Integer(int),
    /// Any other number.
    Real(Double),
    /// A string.
    Str(Seq<char>),
    /// An array.
    Array(Seq<JsonView>),
    /// An object, its members in order.
    Object(Seq<(Seq<char>, JsonView)>),
}

impl DeepView for Json {
    type V = JsonView;

    open spec fn deep_view(&self) -> JsonView {
        json_view(*self)
    }
}

/// What `j` stands for.
pub open spec fn json_view(j: Json) -> JsonView
    decreases j,
{
    match j {
        Json::Null => JsonView::Null,
        Json::Bool(b) => JsonView::Bool(b),
        Json::UInt(n) => JsonView::Integer(n as int),
        Json::Int(n) => JsonView::Integer(n as int),
        Json::Real(x) => JsonView::Real(x),
        Json::Str(s) => JsonView::Str(s@),
        Json::Array(items) => JsonView::Array(
            Seq::new(
                items@.len(),
                |i: int|
                    if 0 <= i < items@.len() {
                        json_view(items@[i])
                    } else {
                        JsonView::Null
                    },
            ),
        ),
        Json::Object(members) => JsonView::Object(
            Seq::new(
                members@.len(),
                |i: int|
                    if 0 <= i < members@.len() {
                        (members@[i].0@, json_view(members@[i].1))
                    } else {
                        (seq![], JsonView::Null)
                    },
            ),
        ),
    }
}

/// Copies a JSON tree.
pub fn copy_json(j: &Json) -> (copy: Json)
    ensures
        json_view(copy) == json_view(*j),
    decreases j,
{
    match j {
        Json::Null => Json::Null,
        Json::Bool(b) => Json::Bool(*b),
        Json::UInt(n) => Json::UInt(*n),
        Json::Int(n) => Json::Int(*n),
        Json::Real(x) => Json::Real(*x),
        Json::Str(s) => Json::Str(s.clone()),
        Json::Array(items) => {
            let mut out: Vec<Json> = Vec::new();
            let mut i: usize = 0;
            while i < items.len()
                invariant
                    i <= items.len(),
                    out@.len() == i,
                    *j == Json::Array(*items),
                    forall|k: int|
                        0 <= k < i ==> json_view(#[trigger] out@[k]) == json_view(items@[k]),
                decreases items.len() - i,
            {
                assert(decreases_to!(*j => j->Array_0));
                assert(decreases_to!(j->Array_0 => (j->Array_0)@));
                assert(decreases_to!(items@ => items@[i as int]));
                out.push(copy_json(&items[i]));
                i += 1;
            }
            let copy = Json::Array(out);
            assert(json_view(copy)->Array_0 =~= json_view(*j)->Array_0);
            copy
        },
        Json::Object(members) => {
            let mut out: Vec<(String, Json)> = Vec::new();
            let mut i: usize = 0;
            while i < members.len()
                invariant
                    i <= members.len(),
                    out@.len() == i,
                    *j == Json::Object(*members),
                    forall|k: int|
                        0 <= k < i ==> (#[trigger] out@[k]).0@ == members@[k].0@ && json_view(
                            out@[k].1,
                        ) == json_view(members@[k].1),
                decreases members.len() - i,
            {
                assert(decreases_to!(*j => j->Object_0));
                assert(decreases_to!(j->Object_0 => (j->Object_0)@));
                assert(decreases_to!(members@ => members@[i as int]));
                assert(decreases_to!(members@[i as int] => members@[i as int].1));
                out.push((members[i].0.clone(), copy_json(&members[i].1)));
                i += 1;
            }
            let copy = Json::Object(out);
            assert(json_view(copy)->Object_0 =~= json_view(*j)->Object_0);
            copy
        },
    }
}

impl Duplicate for Json {
    fn duplicate(&self) -> (copy: Self) {
        copy_json(self)
    }
}

impl Clone for Json {
    fn clone(&self) -> (copy: Self)
        ensures
            copy.deep_view() == self.deep_view(),
    {
        copy_json(self)
    }
}

/// The member of an object named `key`.
pub open spec fn json_get(j: JsonView, key: Seq<char>) -> Option<JsonView> {
    match j {
        JsonView::Object(members) => {
            if exists|i: int| 0 <= i < members.len() && (#[trigger] members[i]).0 == key {
                Some(members[first_member(members, key)].1)
            } else {
                None
            }
        },
        _ => None,
    }
}

/// The least index at which `key` names a member.
pub open spec fn first_member(members: Seq<(Seq<char>, JsonView)>, key: Seq<char>) -> int {
    choose|i: int|
        0 <= i < members.len() && (#[trigger] members[i]).0 == key && forall|k: int|
            0 <= k < i ==> (#[trigger] members[k]).0 != key
}

impl Json {
    /// The member of an object named `key`; of several, the first.
    pub fn get(&self, key: &str) -> (member: Option<&Json>)
        ensures
            match member {
                Some(m) => json_get(self.deep_view(), key@) == Some(m.deep_view()),
                None => json_get(self.deep_view(), key@) is None,
            },
    {
        match self {
            Json::Object(members) => {
                let ghost all = json_view(*self)->Object_0;
                let mut i: usize = 0;
                while i < members.len()
                    invariant
                        i <= members.len(),
                        *self == Json::Object(*members),
                        all == json_view(*self)->Object_0,
                        forall|k: int| 0 <= k < i ==> (#[trigger] all[k]).0 != key@,
                    decreases members.len() - i,
                {
                    assert(all[i as int].0 == members@[i as int].0@);
                    if crate::text::str_eq(&members[i].0, key) {
                        proof {
                            let f = first_member(all, key@);
                            assert(0 <= f < all.len() && all[f].0 == key@);
                            assert(f == i);
                        }
                        return Some(&members[i].1);
                    }
                    i += 1;
                }
                None
            },
            _ => None,
        }
    }

    /// The text of a string value.
    pub fn as_str(&self) -> (text: Option<&String>)
        ensures
            match text {
                Some(s) => self.deep_view() == JsonView::Str(s@),
                None => !(self.deep_view() is Str),
            },
    {
        match self {
            Json::Str(s) => Some(s),
            _ => None,
        }
    }

    /// The value of an integer that fits in 64 signed bits.
    pub fn as_i64(&self) -> (n: Option<i64>)
        ensures
            match n {
                Some(n) => self.deep_view() == JsonView::Integer(n as int),
                None => match self.deep_view() {
                    JsonView::Integer(n) => !(i64::MIN <= n <= i64::MAX),
                    _ => true,
                },
            },
    {
        match self {
            Json::UInt(n) => if *n <= 9223372036854775807 {
                Some(*n as i64)
            } else {
                None
            },
            Json::Int(n) => Some(*n),
            _ => None,
        }
    }

    /// Whether the value is an object.
    pub fn is_object(&self) -> (yes: bool)
        ensures
            yes == (self.deep_view() is Object),
    {
        matches!(self, Json::Object(_))
    }
}

/// The members of an object by their views.
pub open spec fn members_view(members: Seq<(String, Json)>) -> Seq<(Seq<char>, JsonView)> {
    Seq::new(members.len(), |i: int| (members[i].0@, json_view(members[i].1)))
}

/// An object with the given members.
pub fn object(members: Vec<(String, Json)>) -> (j: Json)
    ensures
        j.deep_view() == JsonView::Object(members_view(members@)),
{
    let j = Json::Object(members);
    assert(j.deep_view()->Object_0 =~= members_view(members@));
    j
}

/// An object without members.
pub fn empty_object() -> (j: Json)
    ensures
        j.deep_view() == JsonView::Object(seq![]),
{
    let j = object(Vec::new());
    assert(j.deep_view()->Object_0 =~= seq![]);
    j
}

/// An object with one member.
pub fn object1(key: &str, value: Json) -> (j: Json)
    ensures
        j.deep_view() == JsonView::Object(seq![(key@, value.deep_view())]),
{
    let mut members: Vec<(String, Json)> = Vec::new();
    members.push((key.to_owned(), value));
    let j = object(members);
    assert(j.deep_view()->Object_0 =~= seq![(key@, value.deep_view())]);
    j
}

/// An object with two members.
pub fn object2(k1: &str, v1: Json, k2: &str, v2: Json) -> (j: Json)
    ensures
        j.deep_view() == JsonView::Object(seq![(k1@, v1.deep_view()), (k2@, v2.deep_view())]),
{
    let mut members: Vec<(String, Json)> = Vec::new();
    members.push((k1.to_owned(), v1));
    members.push((k2.to_owned(), v2));
    let j = object(members);
    assert(j.deep_view()->Object_0 =~= seq![(k1@, v1.deep_view()), (k2@, v2.deep_view())]);
    j
}

/// A string value with the given text.
pub fn text_json(text: &str) -> (j: Json)
    ensures
        j.deep_view() == JsonView::Str(text@),
{
    Json::Str(text.to_owned())
}

/// The member of an object under a key is the first that has the key; an object that has none, and
/// any other value, has no such member.
pub proof fn law_member_is_the_first(j: JsonView, key: Seq<char>)
    ensures
        match json_get(j, key) {
            Some(v) => j is Object && exists|i: int|
                {
                    &&& 0 <= i < j->Object_0.len()
                    &&& (#[trigger] j->Object_0[i]).0 == key
                    &&& j->Object_0[i].1 == v
                    &&& forall|k: int| 0 <= k < i ==> (#[trigger] j->Object_0[k]).0 != key
                },
            None => j is Object ==> forall|i: int|
                0 <= i < j->Object_0.len() ==> (#[trigger] j->Object_0[i]).0 != key,
        },
{
    if j is Object {
        let members = j->Object_0;
        if exists|i: int| 0 <= i < members.len() && (#[trigger] members[i]).0 == key {
            let i = choose|i: int| 0 <= i < members.len() && (#[trigger] members[i]).0 == key;
            lemma_first_member(members, key, i);
            assert(members[first_member(members, key)].0 == key);
        }
    }
}

proof fn lemma_first_member(members: Seq<(Seq<char>, JsonView)>, key: Seq<char>, i: int)
    requires
        0 <= i < members.len(),
        members[i].0 == key,
    ensures
        exists|f: int|
            0 <= f < members.len() && (#[trigger] members[f]).0 == key && forall|k: int|
                0 <= k < f ==> (#[trigger] members[k]).0 != key,
    decreases i,
{
    if exists|k: int| 0 <= k < i && (#[trigger] members[k]).0 == key {
        let k = choose|k: int| 0 <= k < i && (#[trigger] members[k]).0 == key;
        lemma_first_member(members, key, k);
    } else {
        assert(members[i].0 == key);
    }
}

/// A finite number keeps its bits in JSON, and one that is infinite or NaN becomes null: a number
/// whose eleven exponent bits are all set is not finite, and any other is.
pub proof fn law_finite_numbers_are_kept(x: Double, j: Json)
    requires
        call_ensures(Double::into_json, (x,), j),
    ensures
        (x.bits as nat / 0x10000000000000) % 0x800 == 0x7ff ==> j.deep_view() is Null,
        (x.bits as nat / 0x10000000000000) % 0x800 != 0x7ff ==> j.deep_view() == JsonView::Real(x),
{
    let b = x.bits;
    assert((b >> 52u64) & 0x7ffu64 == (b / 0x10000000000000u64) % 0x800u64) by (bit_vector);
}

/// A copy of a JSON value stands for the same value.
pub proof fn law_json_copy_is_the_same(j: Json, c: Json)
    requires
        call_ensures(copy_json, (&j,), c),
    ensures
        c.deep_view() == j.deep_view(),
{
}

/// Reading a value gives what it is: text for a string, a number for an integer that fits, and
/// nothing for anything else.
pub proof fn law_values_are_read_as_they_are(
    j: Json,
    text: Option<&String>,
    n: Option<i64>,
    o: bool,
)
    requires
        call_ensures(Json::as_str, (&j,), text),
        call_ensures(Json::as_i64, (&j,), n),
        call_ensures(Json::is_object, (&j,), o),
    ensures
        match j {
            Json::Str(s) => text matches Some(t) && t@ == s@,
            _ => text is None,
        },
        match j {
            Json::Int(i) => n == Some(i),
            Json::UInt(u) => (u <= i64::MAX ==> (n matches Some(i) && i == u)) && (u > i64::MAX
                ==> n is None),
            _ => n is None,
        },
        o <==> j is Object,
{
    reveal_with_fuel(json_view, 2);
}

/// An object that is built holds what it was given, under the keys that it was given.
pub proof fn law_built_objects_hold_their_members(
    k: &str,
    v: Json,
    one: Json,
    k2: &str,
    v2: Json,
    two: Json,
    text: &str,
    t: Json,
    e: Json,
)
    requires
        call_ensures(object1, (k, v), one),
        call_ensures(object2, (k, v, k2, v2), two),
        call_ensures(text_json, (text,), t),
        call_ensures(empty_object, (), e),
    ensures
        json_get(one.deep_view(), k@) == Some(v.deep_view()),
        one.deep_view()->Object_0.len() == 1,
        json_get(two.deep_view(), k@) == Some(v.deep_view()),
        k@ != k2@ ==> json_get(two.deep_view(), k2@) == Some(v2.deep_view()),
        two.deep_view()->Object_0.len() == 2,
        t.deep_view() == JsonView::Str(text@),
        e.deep_view() matches JsonView::Object(m) && m.len() == 0,
{
    let m1 = one.deep_view()->Object_0;
    assert(m1[0] == (k@, v.deep_view()));
    let m2 = two.deep_view()->Object_0;
    assert(m2[0] == (k@, v.deep_view()));
    assert(m2[1] == (k2@, v2.deep_view()));
    lemma_first_member(m1, k@, 0);
    lemma_first_member(m2, k@, 0);
    if k@ != k2@ {
        lemma_first_member(m2, k2@, 1);
    }
}

/// A JSON value stands for what it holds: its truth value, its number, its text, its elements one by
/// one, and its members one by one under their keys.
pub proof fn law_json_stands_for_what_it_holds(j: Json, i: int)
    ensures
        match j {
            Json::Null => j.deep_view() is Null,
            Json::Bool(b) => j.deep_view() == JsonView::Bool(b),
            Json::UInt(n) => j.deep_view() matches JsonView::Integer(x) && x == n,
            Json::Int(n) => j.deep_view() matches JsonView::Integer(x) && x == n,
            Json::Real(x) => j.deep_view() == JsonView::Real(x),
            Json::Str(s) => j.deep_view() == JsonView::Str(s@),
            Json::Array(items) => j.deep_view() matches JsonView::Array(a) && a.len() == items@.len()
                && (0 <= i < items@.len() ==> a[i] == items@[i].deep_view()),
            Json::Object(ms) => j.deep_view() matches JsonView::Object(o) && o.len() == ms@.len()
                && (0 <= i < ms@.len() ==> o[i].0 == ms@[i].0@ && o[i].1 == ms@[i].1.deep_view()),
        },
{
}

} // verus!
