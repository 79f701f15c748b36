//! Values that go in and out of scripts.

use vstd::prelude::*;
use vstd::string::*;

use crate::reading::{ReadingValue, ReadingView};
use crate::strmap::StrMap;
use crate::text::{dec_i64, decimal, join3, signed_decimal, str_eq};
use crate::value::{double_json, json_view, members_view, Double, Json, JsonView};

verus! {

/// A floating-point number of a script, with the texts that it has.
#[derive(Debug)]
pub struct LuaNumber {
    /// The number.
    pub value: Double,
    /// The number as it is shown.
    pub shown: String,
    /// The text that it turns into as a key.
    pub as_key: String,
}

/// A value that comes from a script.
#[derive(Debug)]
#[allow(inconsistent_fields)]
pub enum LuaVal {
    /// `nil`.
    Nil,
    /// A truth value.
    Boolean(bool),
    /// An integer.
    Integer(i64),
    /// A floating-point number.
    Number(LuaNumber),
    /// Text.
    Str(String),
    /// A string that is not text, with the error that reading it as text gives.
    Bytes(String),
    /// A table: its elements from 1 up to its length, and all its pairs in the order of a walk.
    Table {
        /// The elements from 1 up to the length.
        items: Vec<LuaVal>,
        /// The pairs.
        pairs: Vec<(LuaVal, LuaVal)>,
    },
    /// A value of the host, as it is shown in full.
    UserData(String),
    /// A function, by the handle under which the host keeps it, and as it is shown in full.
    Function(u64, String),
    /// Any other value, as it is shown in full.
    Other(String),
}

/// What a [`LuaVal`] stands for.
#[allow(inconsistent_fields)]
pub enum LuaView {
    /// `nil`.
    Nil,
    /// A truth value.
    Boolean(bool),
    /// An integer.
    Integer(i64),
    /// A floating-point number, as it is shown, and as a key.
    Number(Double, Seq<char>, Seq<char>),
    /// Text.
    Str(Seq<char>),
    /// A string that is not text.
    Bytes(Seq<char>),
    /// A table.
    Table {
        /// The elements from 1 up to the length.
        items: Seq<LuaView>,
        /// The pairs.
        pairs: Seq<(LuaView, LuaView)>,
    },
    /// A value of the host.
    UserData(Seq<char>),
    /// A function.
    Function(u64, Seq<char>),
    /// Any other value.
    Other(Seq<char>),
}

impl DeepView for LuaVal {
    type V = LuaView;

    open spec fn deep_view(&self) -> LuaView {
        lua_view(*self)
    }
}

/// What `v` stands for.
pub open spec fn lua_view(v: LuaVal) -> LuaView
    decreases v,
{
    match v {
        LuaVal::Nil => LuaView::Nil,
        LuaVal::Boolean(b) => LuaView::Boolean(b),
        LuaVal::Integer(i) => LuaView::Integer(i),
        LuaVal::Number(n) => LuaView::Number(n.value, n.shown@, n.as_key@),
        LuaVal::Str(s) => LuaView::Str(s@),
        LuaVal::Bytes(e) => LuaView::Bytes(e@),
        LuaVal::Table { items, pairs } => LuaView::Table {
            items: Seq::new(
                items@.len(),
                |i: int|
                    if 0 <= i < items@.len() {
                        lua_view(items@[i])
                    } else {
                        LuaView::Nil
                    },
            ),
            pairs: Seq::new(
                pairs@.len(),
                |i: int|
                    if 0 <= i < pairs@.len() {
                        (lua_view(pairs@[i].0), lua_view(pairs@[i].1))
                    } else {
                        (LuaView::Nil, LuaView::Nil)
                    },
            ),
        },
        LuaVal::UserData(s) => LuaView::UserData(s@),
        LuaVal::Function(f, s) => LuaView::Function(f, s@),
        LuaVal::Other(s) => LuaView::Other(s@),
    }
}

/// Items by their views.
pub open spec fn items_view(items: Seq<LuaVal>) -> Seq<LuaView> {
    Seq::new(items.len(), |i: int| lua_view(items[i]))
}

/// Pairs by their views.
pub open spec fn pairs_view(pairs: Seq<(LuaVal, LuaVal)>) -> Seq<(LuaView, LuaView)> {
    Seq::new(pairs.len(), |i: int| (lua_view(pairs[i].0), lua_view(pairs[i].1)))
}

/// The text that a key turns into, if it turns into one.
pub open spec fn key_text(k: LuaView) -> Option<Seq<char>> {
    match k {
        LuaView::Str(s) => Some(s),
        LuaView::Integer(i) => Some(signed_decimal(i as int)),
        LuaView::Number(_, _, t) => Some(t),
        _ => None,
    }
}

/// The text that a key turns into.
pub fn key_of(k: &LuaVal) -> (t: Option<String>)
    ensures
        t.deep_view() == key_text(k.deep_view()),
{
    match k {
        LuaVal::Str(s) => Some(s.clone()),
        LuaVal::Integer(i) => Some(dec_i64(*i)),
        LuaVal::Number(n) => Some(n.as_key.clone()),
        _ => None,
    }
}

/// Members with one more, in place of an earlier one of the same key.
pub open spec fn put_member<T>(members: Seq<(Seq<char>, T)>, key: Seq<char>, value: T) -> Seq<
    (Seq<char>, T),
>
    decreases members.len(),
{
    if members.len() == 0 {
        seq![(key, value)]
    } else if members[0].0 == key {
        seq![(key, value)] + members.skip(1)
    } else {
        seq![members[0]] + put_member(members.skip(1), key, value)
    }
}

/// The JSON form of a value: a table with elements is an array, and any other table is an
/// object, without the pairs whose keys are no text. Fails on a string that is not text.
pub open spec fn lua_json(v: LuaView) -> Result<JsonView, Seq<char>>
    decreases v,
{
    match v {
        LuaView::Nil => Ok(JsonView::Null),
        LuaView::Boolean(b) => Ok(JsonView::Bool(b)),
        LuaView::Integer(i) => Ok(JsonView::Integer(i as int)),
        LuaView::Number(x, _, _) => Ok(double_json(x)),
        LuaView::Str(s) => Ok(JsonView::Str(s)),
        LuaView::Bytes(e) => Err(e),
        LuaView::Table { items, pairs } => if items.len() > 0 {
            match lua_array(items) {
                Ok(a) => Ok(JsonView::Array(a)),
                Err(e) => Err(e),
            }
        } else {
            match lua_object(pairs) {
                Ok(o) => Ok(JsonView::Object(o)),
                Err(e) => Err(e),
            }
        },
        LuaView::UserData(s) => Ok(JsonView::Str(s)),
        LuaView::Function(_, s) => Ok(JsonView::Str(s)),
        LuaView::Other(s) => Ok(JsonView::Str(s)),
    }
}

/// The JSON forms of several values, or the first failure.
pub open spec fn lua_array(items: Seq<LuaView>) -> Result<Seq<JsonView>, Seq<char>>
    decreases items,
{
    if items.len() == 0 {
        Ok(seq![])
    } else {
        match lua_array(items.drop_last()) {
            Err(e) => Err(e),
            Ok(a) => match lua_json(items.last()) {
                Err(e) => Err(e),
                Ok(j) => Ok(a.push(j)),
            },
        }
    }
}

/// The members that the pairs of a table turn into, or the first failure.
pub open spec fn lua_object(pairs: Seq<(LuaView, LuaView)>) -> Result<
    Seq<(Seq<char>, JsonView)>,
    Seq<char>,
>
    decreases pairs,
{
    if pairs.len() == 0 {
        Ok(seq![])
    } else {
        match lua_object(pairs.drop_last()) {
            Err(e) => Err(e),
            Ok(o) => match key_text(pairs.last().0) {
                None => Ok(o),
                Some(k) => match lua_json(pairs.last().1) {
                    Err(e) => Err(e),
                    Ok(j) => Ok(put_member(o, k, j)),
                },
            },
        }
    }
}

/// Puts one member among others whose keys before `at` differ from its own.
proof fn lemma_put_member<T>(members: Seq<(Seq<char>, T)>, key: Seq<char>, value: T, at: int)
    requires
        0 <= at <= members.len(),
        forall|i: int| 0 <= i < at ==> (#[trigger] members[i]).0 != key,
        at < members.len() ==> members[at].0 == key,
    ensures
        put_member(members, key, value) == if at < members.len() {
            members.update(at, (key, value))
        } else {
            members.push((key, value))
        },
    decreases members.len(),
{
    if members.len() == 0 {
        assert(members.push((key, value)) =~= seq![(key, value)]);
    } else if at == 0 {
        assert(members.update(0, (key, value)) =~= seq![(key, value)] + members.skip(1));
    } else {
        let rest = members.skip(1);
        assert(members[0].0 != key);
        assert forall|i: int| 0 <= i < at - 1 implies (#[trigger] rest[i]).0 != key by {
            assert(rest[i] == members[i + 1]);
        }
        lemma_put_member(rest, key, value, at - 1);
        if at < members.len() {
            assert(members.update(at, (key, value)) =~= seq![members[0]] + rest.update(
                at - 1,
                (key, value),
            ));
        } else {
            assert(members.push((key, value)) =~= seq![members[0]] + rest.push((key, value)));
        }
    }
}

/// Puts a member into an object, in place of an earlier one of the same key.
pub fn put(members: &mut Vec<(String, Json)>, key: String, value: Json)
    ensures
        members_view(final(members)@) == put_member(
            members_view(old(members)@),
            key@,
            value.deep_view(),
        ),
{
    let ghost before = members_view(members@);
    let ghost v = value.deep_view();
    let mut i: usize = 0;
    while i < members.len()
        invariant
            i <= members.len(),
            members@ == old(members)@,
            before == members_view(members@),
            v == value.deep_view(),
            forall|j: int| 0 <= j < i ==> (#[trigger] before[j]).0 != key@,
        decreases members.len() - i,
    {
        assert(before[i as int].0 == members@[i as int].0@);
        if str_eq(&members[i].0, &key) {
            proof {
                lemma_put_member(before, key@, v, i as int);
            }
            members.set(i, (key, value));
            assert(members_view(members@) =~= before.update(i as int, (key@, v)));
            return ;
        }
        i += 1;
    }
    proof {
        lemma_put_member(before, key@, v, i as int);
    }
    members.push((key, value));
    assert(members_view(members@) =~= before.push((key@, v)));
}

/// The JSON form of a value. Fails on a string that is not text.
pub fn lua_value_to_json(v: &LuaVal) -> (j: Result<Json, String>)
    ensures
        json_result(j) == lua_json(v.deep_view()),
    decreases *v,
{
    match v {
        LuaVal::Nil => Ok(Json::Null),
        LuaVal::Boolean(b) => Ok(Json::Bool(*b)),
        LuaVal::Integer(i) => Ok(Json::Int(*i)),
        LuaVal::Number(n) => Ok(n.value.into_json()),
        LuaVal::Str(s) => Ok(Json::Str(s.clone())),
        LuaVal::Bytes(e) => Err(e.clone()),
        LuaVal::Table { items, pairs } => {
            let ghost all = items_view(items@);
            let ghost both = pairs_view(pairs@);
            assert(lua_view(*v) == LuaView::Table { items: all, pairs: both }) by {
                assert(lua_view(*v)->items =~= all);
                assert(lua_view(*v)->pairs =~= both);
            }
            assert(decreases_to!(*v => v->items));
            assert(decreases_to!(v->items => (v->items)@));
            assert(decreases_to!(*v => v->pairs));
            assert(decreases_to!(v->pairs => (v->pairs)@));
            if items.len() > 0 {
                let mut a: Vec<Json> = Vec::new();
                let mut i: usize = 0;
                assert(all.take(0) =~= seq![]);
                assert(jsons_view(a@) =~= seq![]);
                while i < items.len()
                    invariant
                        i <= items.len(),
                        all == items_view(items@),
                        decreases_to!(*v => items@),
                        lua_array(all.take(i as int)) == Ok::<Seq<JsonView>, Seq<char>>(
                            jsons_view(a@),
                        ),
                        lua_view(*v) == (LuaView::Table { items: all, pairs: both }),
                        all.len() > 0,
                    decreases items.len() - i,
                {
                    assert(decreases_to!(items@ => items@[i as int]));
                    let r = lua_value_to_json(&items[i]);
                    proof {
                        let next = all.take(i + 1);
                        assert(next.drop_last() =~= all.take(i as int));
                        assert(next.last() == lua_view(items@[i as int]));
                    }
                    match r {
                        Ok(j) => {
                            let ghost before = jsons_view(a@);
                            a.push(j);
                            assert(jsons_view(a@) =~= before.push(j.deep_view()));
                        },
                        Err(e) => {
                            proof {
                                lemma_array_fails(all, i + 1);
                            }
                            return Err(e);
                        },
                    }
                    i += 1;
                }
                assert(all.take(all.len() as int) =~= all);
                let j = Json::Array(a);
                assert(json_view(j)->Array_0 =~= jsons_view(a@));
                Ok(j)
            } else {
                let mut o: Vec<(String, Json)> = Vec::new();
                let mut i: usize = 0;
                assert(both.take(0) =~= seq![]);
                assert(members_view(o@) =~= seq![]);
                while i < pairs.len()
                    invariant
                        i <= pairs.len(),
                        both == pairs_view(pairs@),
                        decreases_to!(*v => pairs@),
                        lua_object(both.take(i as int)) == Ok::<
                            Seq<(Seq<char>, JsonView)>,
                            Seq<char>,
                        >(members_view(o@)),
                        lua_view(*v) == (LuaView::Table { items: all, pairs: both }),
                        all.len() == 0,
                    decreases pairs.len() - i,
                {
                    assert(decreases_to!(pairs@ => pairs@[i as int]));
                    assert(decreases_to!(pairs@[i as int] => pairs@[i as int].1));
                    proof {
                        let next = both.take(i + 1);
                        assert(next.drop_last() =~= both.take(i as int));
                        assert(next.last() == (
                            lua_view(pairs@[i as int].0),
                            lua_view(pairs@[i as int].1),
                        ));
                    }
                    match key_of(&pairs[i].0) {
                        None => {},
                        Some(k) => {
                            match lua_value_to_json(&pairs[i].1) {
                                Ok(j) => {
                                    put(&mut o, k, j);
                                },
                                Err(e) => {
                                    proof {
                                        lemma_object_fails(both, i + 1);
                                    }
                                    return Err(e);
                                },
                            }
                        },
                    }
                    i += 1;
                }
                assert(both.take(both.len() as int) =~= both);
                let j = Json::Object(o);
                assert(json_view(j)->Object_0 =~= members_view(o@));
                Ok(j)
            }
        },
        LuaVal::UserData(s) => Ok(Json::Str(s.clone())),
        LuaVal::Function(_, s) => Ok(Json::Str(s.clone())),
        LuaVal::Other(s) => Ok(Json::Str(s.clone())),
    }
}

/// JSON values by their views.
pub open spec fn jsons_view(a: Seq<Json>) -> Seq<JsonView> {
    Seq::new(a.len(), |i: int| json_view(a[i]))
}

/// A result by its view.
pub open spec fn json_result(r: Result<Json, String>) -> Result<JsonView, Seq<char>> {
    match r {
        Ok(j) => Ok(j.deep_view()),
        Err(e) => Err(e@),
    }
}

/// What fails on the first `n` items fails alike on all of them.
proof fn lemma_array_fails(items: Seq<LuaView>, n: int)
    requires
        0 <= n <= items.len(),
        lua_array(items.take(n)) is Err,
    ensures
        lua_array(items) == lua_array(items.take(n)),
    decreases items.len() - n,
{
    if n == items.len() {
        assert(items.take(n) =~= items);
    } else {
        assert(items.take(n + 1).drop_last() =~= items.take(n));
        lemma_array_fails(items, n + 1);
    }
}

/// What fails on the first `n` pairs fails alike on all of them.
proof fn lemma_object_fails(pairs: Seq<(LuaView, LuaView)>, n: int)
    requires
        0 <= n <= pairs.len(),
        lua_object(pairs.take(n)) is Err,
    ensures
        lua_object(pairs) == lua_object(pairs.take(n)),
    decreases pairs.len() - n,
{
    if n == pairs.len() {
        assert(pairs.take(n) =~= pairs);
    } else {
        assert(pairs.take(n + 1).drop_last() =~= pairs.take(n));
        lemma_object_fails(pairs, n + 1);
    }
}

/// How a value is printed.
pub open spec fn lua_repr(v: LuaView) -> Seq<char>
    decreases v,
{
    match v {
        LuaView::Nil => "nil"@,
        LuaView::Boolean(b) => if b {
            "true"@
        } else {
            "false"@
        },
        LuaView::Integer(i) => signed_decimal(i as int),
        LuaView::Number(_, shown, _) => shown,
        LuaView::Str(s) => s,
        LuaView::Bytes(_) => ""@,
        LuaView::Table { pairs, .. } => "{"@ + pairs_repr(pairs) + "}"@,
        LuaView::UserData(_) => "<userdata>"@,
        LuaView::Function(_, s) => s,
        LuaView::Other(s) => s,
    }
}

/// How pairs are printed, with commas between them.
pub open spec fn pairs_repr(pairs: Seq<(LuaView, LuaView)>) -> Seq<char>
    decreases pairs,
{
    if pairs.len() == 0 {
        ""@
    } else {
        let one = lua_repr(pairs.last().0) + "="@ + lua_repr(pairs.last().1);
        if pairs.len() == 1 {
            one
        } else {
            pairs_repr(pairs.drop_last()) + ","@ + one
        }
    }
}

/// How a value is printed.
pub fn lua_value_repr(v: &LuaVal) -> (s: String)
    ensures
        s@ == lua_repr(v.deep_view()),
    decreases *v,
{
    match v {
        LuaVal::Nil => "nil".to_owned(),
        LuaVal::Boolean(b) => if *b {
            "true".to_owned()
        } else {
            "false".to_owned()
        },
        LuaVal::Integer(i) => dec_i64(*i),
        LuaVal::Number(n) => n.shown.clone(),
        LuaVal::Str(s) => s.clone(),
        LuaVal::Bytes(_) => "".to_owned(),
        LuaVal::Table { items, pairs } => {
            let ghost both = pairs_view(pairs@);
            assert(lua_view(*v)->pairs =~= both);
            assert(decreases_to!(*v => v->pairs));
            assert(decreases_to!(v->pairs => (v->pairs)@));
            let mut text: String = "".to_owned();
            let mut i: usize = 0;
            assert(both.take(0) =~= seq![]);
            while i < pairs.len()
                invariant
                    i <= pairs.len(),
                    both == pairs_view(pairs@),
                    decreases_to!(*v => pairs@),
                    text@ == pairs_repr(both.take(i as int)),
                decreases pairs.len() - i,
            {
                assert(decreases_to!(pairs@ => pairs@[i as int]));
                assert(decreases_to!(pairs@[i as int] => pairs@[i as int].0));
                assert(decreases_to!(pairs@[i as int] => pairs@[i as int].1));
                let one = join3(
                    &lua_value_repr(&pairs[i].0),
                    "=",
                    &lua_value_repr(&pairs[i].1),
                );
                let ghost next = both.take(i + 1);
                assert(next.drop_last() =~= both.take(i as int));
                assert(next.last() == (
                    lua_view(pairs@[i as int].0),
                    lua_view(pairs@[i as int].1),
                ));
                text = if i == 0 {
                    one
                } else {
                    join3(&text, ",", &one)
                };
                i += 1;
            }
            assert(both.take(both.len() as int) =~= both);
            join3("{", &text, "}")
        },
        LuaVal::UserData(_) => "<userdata>".to_owned(),
        LuaVal::Function(_, s) => s.clone(),
        LuaVal::Other(s) => s.clone(),
    }
}

/// How several values are printed on one line, with spaces between them.
pub open spec fn line_repr(values: Seq<LuaView>) -> Seq<char>
    decreases values.len(),
{
    if values.len() == 0 {
        ""@
    } else if values.len() == 1 {
        lua_repr(values[0])
    } else {
        line_repr(values.drop_last()) + " "@ + lua_repr(values.last())
    }
}

/// The line that `print` writes.
pub fn print_line(values: &Vec<LuaVal>) -> (s: String)
    ensures
        s@ == line_repr(items_view(values@)),
{
    let ghost all = items_view(values@);
    let mut text: String = "".to_owned();
    let mut i: usize = 0;
    assert(all.take(0) =~= seq![]);
    while i < values.len()
        invariant
            i <= values.len(),
            all == items_view(values@),
            text@ == line_repr(all.take(i as int)),
        decreases values.len() - i,
    {
        let one = lua_value_repr(&values[i]);
        let ghost next = all.take(i + 1);
        assert(next.drop_last() =~= all.take(i as int));
        assert(next.last() == lua_view(values@[i as int]));
        text = if i == 0 {
            one
        } else {
            join3(&text, " ", &one)
        };
        i += 1;
    }
    assert(all.take(all.len() as int) =~= all);
    text
}

/// A value that goes to a script.
#[derive(Debug)]
pub enum LuaOut {
    /// `nil`.
    Nil,
    /// A truth value.
    Boolean(bool),
    /// An integer.
    Integer(i64),
    /// An integer above the range of integers, which a script holds as a floating-point number.
    Large(u64),
    /// A floating-point number.
    Number(Double),
    /// Text.
    Str(String),
    /// A table of elements from 1 up.
    Items(Vec<LuaOut>),
    /// A table of named fields, in the order in which they are set.
    Fields(Vec<(String, LuaOut)>),
}

/// What a [`LuaOut`] stands for.
pub enum OutView {
    /// `nil`.
    Nil,
    /// A truth value.
    Boolean(bool),
    /// An integer.
    Integer(i64),
    /// An integer above the range of integers.
    Large(u64),
    /// A floating-point number.
    Number(Double),
    /// Text.
    Str(Seq<char>),
    /// A table of elements from 1 up.
    Items(Seq<OutView>),
    /// A table of named fields.
    Fields(Seq<(Seq<char>, OutView)>),
}

impl DeepView for LuaOut {
    type V = OutView;

    open spec fn deep_view(&self) -> OutView {
        out_view(*self)
    }
}

/// What `v` stands for.
pub open spec fn out_view(v: LuaOut) -> OutView
    decreases v,
{
    match v {
        LuaOut::Nil => OutView::Nil,
        LuaOut::Boolean(b) => OutView::Boolean(b),
        LuaOut::Integer(i) => OutView::Integer(i),
        LuaOut::Large(u) => OutView::Large(u),
        LuaOut::Number(x) => OutView::Number(x),
        LuaOut::Str(s) => OutView::Str(s@),
        LuaOut::Items(items) => OutView::Items(
            Seq::new(
                items@.len(),
                |i: int|
                    if 0 <= i < items@.len() {
                        out_view(items@[i])
                    } else {
                        OutView::Nil
                    },
            ),
        ),
        LuaOut::Fields(fields) => OutView::Fields(
            Seq::new(
                fields@.len(),
                |i: int|
                    if 0 <= i < fields@.len() {
                        (fields@[i].0@, out_view(fields@[i].1))
                    } else {
                        (seq![], OutView::Nil)
                    },
            ),
        ),
    }
}

/// Elements by their views.
pub open spec fn outs_view(items: Seq<LuaOut>) -> Seq<OutView> {
    Seq::new(items.len(), |i: int| out_view(items[i]))
}

/// Fields by their views.
pub open spec fn out_fields_view(fields: Seq<(String, LuaOut)>) -> Seq<(Seq<char>, OutView)> {
    Seq::new(fields.len(), |i: int| (fields[i].0@, out_view(fields[i].1)))
}

/// A table of named fields.
pub fn out_fields(fields: Vec<(String, LuaOut)>) -> (v: LuaOut)
    ensures
        v.deep_view() == OutView::Fields(out_fields_view(fields@)),
{
    let v = LuaOut::Fields(fields);
    assert(out_view(v)->Fields_0 =~= out_fields_view(fields@));
    v
}

/// The value that JSON turns into for a script.
pub open spec fn json_out(j: JsonView) -> OutView
    decreases j,
{
    match j {
        JsonView::Null => OutView::Nil,
        JsonView::Bool(b) => OutView::Boolean(b),
        JsonView::Integer(n) => if i64::MIN <= n <= i64::MAX {
            OutView::Integer(n as i64)
        } else {
            OutView::Large(n as u64)
        },
        JsonView::Real(x) => OutView::Number(x),
        JsonView::Str(s) => OutView::Str(s),
        JsonView::Array(a) => OutView::Items(
            Seq::new(
                a.len(),
                |i: int|
                    if 0 <= i < a.len() {
                        json_out(a[i])
                    } else {
                        OutView::Nil
                    },
            ),
        ),
        JsonView::Object(o) => OutView::Fields(
            Seq::new(
                o.len(),
                |i: int|
                    if 0 <= i < o.len() {
                        (o[i].0, json_out(o[i].1))
                    } else {
                        (seq![], OutView::Nil)
                    },
            ),
        ),
    }
}

/// The value that JSON turns into for a script.
pub fn json_to_lua(j: &Json) -> (v: LuaOut)
    ensures
        v.deep_view() == json_out(j.deep_view()),
    decreases *j,
{
    match j {
        Json::Null => LuaOut::Nil,
        Json::Bool(b) => LuaOut::Boolean(*b),
        Json::UInt(n) => if *n <= 9223372036854775807 {
            LuaOut::Integer(*n as i64)
        } else {
            LuaOut::Large(*n)
        },
        Json::Int(n) => LuaOut::Integer(*n),
        Json::Real(x) => LuaOut::Number(*x),
        Json::Str(s) => LuaOut::Str(s.clone()),
        Json::Array(a) => {
            assert(decreases_to!(*j => j->Array_0));
            assert(decreases_to!(j->Array_0 => (j->Array_0)@));
            let mut items: Vec<LuaOut> = Vec::new();
            let mut i: usize = 0;
            while i < a.len()
                invariant
                    i <= a.len(),
                    decreases_to!(*j => a@),
                    items@.len() == i,
                    forall|k: int|
                        0 <= k < i ==> out_view(#[trigger] items@[k]) == json_out(json_view(a@[k])),
                decreases a.len() - i,
            {
                assert(decreases_to!(a@ => a@[i as int]));
                items.push(json_to_lua(&a[i]));
                i += 1;
            }
            let v = LuaOut::Items(items);
            assert(out_view(v)->Items_0 =~= json_out(json_view(*j))->Items_0);
            v
        },
        Json::Object(o) => {
            assert(decreases_to!(*j => j->Object_0));
            assert(decreases_to!(j->Object_0 => (j->Object_0)@));
            let mut fields: Vec<(String, LuaOut)> = Vec::new();
            let mut i: usize = 0;
            while i < o.len()
                invariant
                    i <= o.len(),
                    decreases_to!(*j => o@),
                    fields@.len() == i,
                    forall|k: int|
                        0 <= k < i ==> (#[trigger] fields@[k]).0@ == o@[k].0@ && out_view(
                            fields@[k].1,
                        ) == json_out(json_view(o@[k].1)),
                decreases o.len() - i,
            {
                assert(decreases_to!(o@ => o@[i as int]));
                assert(decreases_to!(o@[i as int] => o@[i as int].1));
                fields.push((o[i].0.clone(), json_to_lua(&o[i].1)));
                i += 1;
            }
            let v = LuaOut::Fields(fields);
            assert(out_view(v)->Fields_0 =~= json_out(json_view(*j))->Fields_0);
            v
        },
    }
}

/// The table of one reading: value and timestamp, and what there is of an alarm.
pub open spec fn reading_out(r: ReadingView) -> OutView {
    let base = seq![
        ("value"@, json_out(r.value)),
        ("timestamp"@, OutView::Number(r.timestamp)),
    ];
    let severe = match r.alarm_severity {
        Some(s) => base.push(("alarm_severity"@, OutView::Integer(s as i64))),
        None => base,
    };
    OutView::Fields(
        match r.message {
            Some(m) => severe.push(("message"@, OutView::Str(m))),
            None => severe,
        },
    )
}

/// The table of one reading.
pub fn reading_table(r: &ReadingValue) -> (v: LuaOut)
    ensures
        v.deep_view() == reading_out(r.deep_view()),
{
    let mut fields: Vec<(String, LuaOut)> = Vec::new();
    fields.push(("value".to_owned(), json_to_lua(&r.value)));
    fields.push(("timestamp".to_owned(), LuaOut::Number(r.timestamp)));
    if let Some(s) = r.alarm_severity {
        fields.push(("alarm_severity".to_owned(), LuaOut::Integer(s as i64)));
    }
    if let Some(m) = &r.message {
        fields.push(("message".to_owned(), LuaOut::Str(m.clone())));
    }
    let v = out_fields(fields);
    assert(v.deep_view()->Fields_0 =~= reading_out(r.deep_view())->Fields_0);
    v
}

/// The table of several readings.
pub open spec fn readings_out(pairs: Seq<(Seq<char>, ReadingView)>) -> OutView {
    OutView::Fields(pairs.map_values(|p: (Seq<char>, ReadingView)| (p.0, reading_out(p.1))))
}

/// The table of several readings.
pub fn readings_table(readings: &StrMap<ReadingValue>) -> (v: LuaOut)
    ensures
        v.deep_view() == readings_out(readings.pairs()),
{
    let mut fields: Vec<(String, LuaOut)> = Vec::new();
    let mut i: usize = 0;
    while i < readings.len()
        invariant
            i <= readings.pairs().len(),
            fields@.len() == i,
            forall|k: int|
                0 <= k < i ==> (#[trigger] fields@[k]).0@ == readings.pairs()[k].0 && out_view(
                    fields@[k].1,
                ) == reading_out(readings.pairs()[k].1),
        decreases readings.pairs().len() - i,
    {
        fields.push((readings.key_at(i).clone(), reading_table(readings.value_at(i))));
        i += 1;
    }
    let v = out_fields(fields);
    assert(v.deep_view()->Fields_0 =~= readings_out(readings.pairs())->Fields_0);
    v
}

/// The text of a key of a table: text is itself, numbers are written out, and no other value is a
/// key.
pub open spec fn named_by(k: LuaView) -> Option<Seq<char>> {
    match k {
        LuaView::Str(s) => Some(s),
        LuaView::Integer(i) => Some(signed_decimal(i as int)),
        LuaView::Number(_, _, t) => Some(t),
        _ => None,
    }
}

/// What the last of the pairs with the key `k` holds.
pub open spec fn last_under(pairs: Seq<(LuaView, LuaView)>, k: Seq<char>) -> Option<LuaView>
    decreases pairs.len(),
{
    if pairs.len() == 0 {
        None
    } else if named_by(pairs.last().0) == Some(k) {
        Some(pairs.last().1)
    } else {
        last_under(pairs.drop_last(), k)
    }
}

/// Values of a script keep what they are as JSON: nothing, truth values, integers, finite numbers
/// and text are themselves; a number that is not finite is null. A table with elements is the array
/// of its elements in order. Any other table is an object with one member for each key, which holds
/// what the last pair with the key holds.
pub proof fn law_values_keep_what_they_are(v: LuaView)
    ensures
        v is Nil ==> lua_json(v) == Ok::<JsonView, Seq<char>>(JsonView::Null),
        v matches LuaView::Boolean(b) ==> lua_json(v) == Ok::<JsonView, Seq<char>>(
            JsonView::Bool(b),
        ),
        v matches LuaView::Integer(i) ==> lua_json(v) == Ok::<JsonView, Seq<char>>(
            JsonView::Integer(i as int),
        ),
        v matches LuaView::Number(x, _, _) ==> lua_json(v) == Ok::<JsonView, Seq<char>>(
            if x.finite() {
                JsonView::Real(x)
            } else {
                JsonView::Null
            },
        ),
        v matches LuaView::Str(s) ==> lua_json(v) == Ok::<JsonView, Seq<char>>(JsonView::Str(s)),
        v is Bytes ==> lua_json(v) is Err,
        v matches LuaView::Table { items, pairs } ==> {
            &&& items.len() > 0 && lua_json(v) is Ok ==> {
                let a = lua_json(v)->Ok_0->Array_0;
                &&& lua_json(v)->Ok_0 is Array
                &&& a.len() == items.len()
                &&& forall|i: int|
                    0 <= i < items.len() ==> lua_json(#[trigger] items[i]) == Ok::<
                        JsonView,
                        Seq<char>,
                    >(a[i])
            }
            &&& items.len() > 0 && lua_json(v) is Err ==> exists|i: int|
                0 <= i < items.len() && lua_json(#[trigger] items[i]) is Err
            &&& items.len() == 0 && lua_json(v) is Ok ==> {
                let o = lua_json(v)->Ok_0->Object_0;
                &&& lua_json(v)->Ok_0 is Object
                &&& one_for_each_key(o, pairs)
            }
        },
{
    if let LuaView::Table { items, pairs } = v {
        lemma_array_items(items);
        if items.len() == 0 {
            lemma_object_members(pairs);
        }
    }
}

/// Whether the members are those of the keys of the pairs: one for each, with the JSON form of what
/// the last pair with the key holds.
pub open spec fn one_for_each_key(
    members: Seq<(Seq<char>, JsonView)>,
    pairs: Seq<(LuaView, LuaView)>,
) -> bool {
    &&& forall|i: int, j: int|
        0 <= i < j < members.len() ==> (#[trigger] members[i]).0 != (#[trigger] members[j]).0
    &&& forall|k: Seq<char>|
        (#[trigger] last_under(pairs, k)) is Some ==> exists|j: int|
            0 <= j < members.len() && (#[trigger] members[j]).0 == k
    &&& forall|j: int|
        0 <= j < members.len() ==> {
            &&& last_under(pairs, (#[trigger] members[j]).0) is Some
            &&& lua_json(last_under(pairs, members[j].0)->0) == Ok::<JsonView, Seq<char>>(
                members[j].1,
            )
        }
}

proof fn lemma_array_items(items: Seq<LuaView>)
    ensures
        match lua_array(items) {
            Ok(a) => a.len() == items.len() && forall|i: int|
                0 <= i < items.len() ==> lua_json(#[trigger] items[i]) == Ok::<
                    JsonView,
                    Seq<char>,
                >(a[i]),
            Err(_) => exists|i: int| 0 <= i < items.len() && lua_json(#[trigger] items[i]) is Err,
        },
    decreases items.len(),
{
    if items.len() > 0 {
        let rest = items.drop_last();
        lemma_array_items(rest);
        match lua_array(rest) {
            Ok(a) => {
                if lua_json(items.last()) is Ok {
                    assert forall|i: int| 0 <= i < items.len() implies lua_json(
                        #[trigger] items[i],
                    ) == Ok::<JsonView, Seq<char>>(lua_array(items)->Ok_0[i]) by {
                        if i < rest.len() {
                            assert(rest[i] == items[i]);
                        }
                    }
                } else {
                    assert(lua_json(items[items.len() - 1]) is Err);
                }
            },
            Err(_) => {
                let i = choose|i: int|
                    0 <= i < rest.len() && lua_json(#[trigger] rest[i]) is Err;
                assert(lua_json(items[i]) is Err);
            },
        }
    }
}

proof fn lemma_object_members(pairs: Seq<(LuaView, LuaView)>)
    ensures
        lua_object(pairs) matches Ok(o) ==> one_for_each_key(o, pairs),
    decreases pairs.len(),
{
    if pairs.len() > 0 && lua_object(pairs) is Ok {
        let rest = pairs.drop_last();
        lemma_object_members(rest);
        let o = lua_object(rest)->Ok_0;
        match named_by(pairs.last().0) {
            None => {
                assert forall|k: Seq<char>|
                    (#[trigger] last_under(pairs, k)) == last_under(rest, k) by {}
            },
            Some(key) => {
                let v = lua_json(pairs.last().1)->Ok_0;
                let p = put_member(o, key, v);
                lemma_put_keys(o, key, v);
                assert forall|k: Seq<char>| (#[trigger] last_under(pairs, k)) is Some implies exists|
                    j: int,
                |
                    0 <= j < p.len() && (#[trigger] p[j]).0 == k by {
                    if k != key {
                        assert(last_under(rest, k) is Some);
                        let i = choose|i: int| 0 <= i < o.len() && (#[trigger] o[i]).0 == k;
                        assert(p.contains(o[i]));
                        let j = choose|j: int| 0 <= j < p.len() && p[j] == o[i];
                        assert(p[j].0 == k);
                    }
                }
                assert forall|j: int| 0 <= j < p.len() implies {
                    &&& last_under(pairs, (#[trigger] p[j]).0) is Some
                    &&& lua_json(last_under(pairs, p[j].0)->0) == Ok::<JsonView, Seq<char>>(p[j].1)
                } by {
                    if p[j].0 != key {
                        assert(o.contains(p[j]));
                        let i = choose|i: int| 0 <= i < o.len() && o[i] == p[j];
                        assert(last_under(rest, o[i].0) is Some);
                    }
                }
            },
        }
    }
}

/// Putting a member among others of different keys.
proof fn lemma_put_keys(members: Seq<(Seq<char>, JsonView)>, key: Seq<char>, value: JsonView)
    requires
        forall|i: int, j: int|
            0 <= i < j < members.len() ==> (#[trigger] members[i]).0 != (#[trigger] members[j]).0,
    ensures
        ({
            let p = put_member(members, key, value);
            &&& forall|i: int, j: int|
                0 <= i < j < p.len() ==> (#[trigger] p[i]).0 != (#[trigger] p[j]).0
            &&& exists|j: int| 0 <= j < p.len() && (#[trigger] p[j]).0 == key
            &&& forall|j: int| 0 <= j < p.len() && (#[trigger] p[j]).0 == key ==> p[j].1 == value
            &&& forall|j: int|
                0 <= j < p.len() && (#[trigger] p[j]).0 != key ==> members.contains(p[j])
            &&& forall|i: int|
                0 <= i < members.len() && (#[trigger] members[i]).0 != key ==> p.contains(
                    members[i],
                )
        }),
{
    let p = put_member(members, key, value);
    if exists|i: int| 0 <= i < members.len() && (#[trigger] members[i]).0 == key {
        let at = choose|i: int| 0 <= i < members.len() && (#[trigger] members[i]).0 == key;
        assert forall|i: int| 0 <= i < at implies (#[trigger] members[i]).0 != key by {
            assert(members[i].0 != members[at].0);
        }
        lemma_put_member(members, key, value, at);
        assert(p[at] == (key, value));
        assert forall|i: int, j: int| 0 <= i < j < p.len() implies (#[trigger] p[i]).0 != (
        #[trigger] p[j]).0 by {
            assert(members[i].0 != members[j].0);
        }
        assert forall|j: int| 0 <= j < p.len() && (#[trigger] p[j]).0 != key implies members.contains(
            p[j],
        ) by {
            assert(members[j] == p[j]);
        }
        assert forall|i: int| 0 <= i < members.len() && (#[trigger] members[i]).0 != key implies
            p.contains(members[i]) by {
            assert(p[i] == members[i]);
        }
    } else {
        lemma_put_member(members, key, value, members.len() as int);
        assert(p[members.len() as int] == (key, value));
        assert forall|j: int| 0 <= j < p.len() && (#[trigger] p[j]).0 != key implies members.contains(
            p[j],
        ) by {
            assert(members[j] == p[j]);
        }
        assert forall|i: int| 0 <= i < members.len() && (#[trigger] members[i]).0 != key implies
            p.contains(members[i]) by {
            assert(p[i] == members[i]);
        }
    }
}

/// JSON that is handed to a script keeps what it is: truth values, numbers and text are themselves,
/// an array is the table of its elements in order, and an object the table of its members.
pub proof fn law_json_reaches_the_script(j: Json, v: LuaOut)
    requires
        call_ensures(json_to_lua, (&j,), v),
    ensures
        match j.deep_view() {
            JsonView::Null => v is Nil,
            JsonView::Bool(b) => v == LuaOut::Boolean(b),
            JsonView::Integer(n) => i64::MIN <= n <= i64::MAX ==> v == LuaOut::Integer(n as i64),
            JsonView::Real(x) => v == LuaOut::Number(x),
            JsonView::Str(s) => v matches LuaOut::Str(t) && t@ == s,
            JsonView::Array(a) => v.deep_view() matches OutView::Items(w) && w.len() == a.len()
                && forall|i: int| 0 <= i < a.len() ==> #[trigger] w[i] == json_out(a[i]),
            JsonView::Object(o) => v.deep_view() matches OutView::Fields(w) && w.len() == o.len()
                && forall|i: int|
                0 <= i < o.len() ==> (#[trigger] w[i]).0 == o[i].0 && w[i].1 == json_out(o[i].1),
        },
        j matches Json::UInt(n) ==> n > i64::MAX ==> v == LuaOut::Large(n),
{
}

/// The table of a reading has its value and its timestamp, and what there is of an alarm, each under
/// its own name; the table of several readings has each under its own key.
pub proof fn law_reading_tables_hold_the_readings(
    r: ReadingValue,
    v: LuaOut,
    readings: StrMap<ReadingValue>,
    all: LuaOut,
)
    requires
        call_ensures(reading_table, (&r,), v),
        call_ensures(readings_table, (&readings,), all),
    ensures
        v.deep_view() matches OutView::Fields(f) && {
            let n = f.len();
            &&& n >= 2
            &&& f[0].0 == "value"@ && f[0].1 == json_out(r.value.deep_view())
            &&& f[1].0 == "timestamp"@ && f[1].1 == OutView::Number(r.timestamp)
            &&& match (r.alarm_severity, r.message) {
                (None, None) => n == 2,
                (Some(s), None) => n == 3 && f[2].0 == "alarm_severity"@ && f[2].1
                    == OutView::Integer(s as i64),
                (None, Some(m)) => n == 3 && f[2].0 == "message"@ && f[2].1 == OutView::Str(m@),
                (Some(s), Some(m)) => n == 4 && f[2].0 == "alarm_severity"@ && f[2].1
                    == OutView::Integer(s as i64) && f[3].0 == "message"@ && f[3].1 == OutView::Str(
                    m@,
                ),
            }
        },
        all.deep_view() matches OutView::Fields(f) && f.len() == readings.pairs().len() && forall|
            i: int,
        |
            0 <= i < f.len() ==> {
                &&& (#[trigger] f[i]).0 == readings.pairs()[i].0
                &&& f[i].1 matches OutView::Fields(g) && g.len() >= 2 && g[0].1 == json_out(
                    readings.pairs()[i].1.value,
                ) && g[1].1 == OutView::Number(readings.pairs()[i].1.timestamp)
            },
{
}

/// How several values are printed: their texts in order, with a space between neighbours.
pub proof fn law_line_shows_every_value(values: Seq<LuaView>, last: LuaView)
    ensures
        line_repr(seq![]) == Seq::<char>::empty(),
        line_repr(seq![last]) == lua_repr(last),
        values.len() > 0 ==> line_repr(values.push(last)) == line_repr(values) + seq![' '] + lua_repr(
            last,
        ),
{
    reveal_strlit("");
    reveal_strlit(" ");
    assert(""@ =~= Seq::<char>::empty());
    assert(" "@ =~= seq![' ']);
    assert(values.push(last).drop_last() =~= values);
}

/// A value of a script becomes the JSON value that it is: nothing becomes null, a truth value, an
/// integer and text become themselves, and the elements of a table that has any become those of an
/// array, one by one.
pub proof fn law_script_values_become_json(
    v: LuaVal,
    r: Result<Json, String>,
    i: int,
    item: Result<Json, String>,
)
    requires
        call_ensures(lua_value_to_json, (&v,), r),
        match v {
            LuaVal::Table { items, .. } => 0 <= i < items@.len() ==> call_ensures(
                lua_value_to_json,
                (&items@[i],),
                item,
            ),
            _ => true,
        },
    ensures
        match v {
            LuaVal::Nil => r matches Ok(j) && j.deep_view() is Null,
            LuaVal::Boolean(b) => r matches Ok(j) && j.deep_view() == JsonView::Bool(b),
            LuaVal::Integer(n) => r matches Ok(j) && j.deep_view() == JsonView::Integer(n as int),
            LuaVal::Number(n) => n.value.finite() ==> (r matches Ok(j) && j.deep_view()
                == JsonView::Real(n.value)),
            LuaVal::Str(s) => r matches Ok(j) && j.deep_view() == JsonView::Str(s@),
            LuaVal::Bytes(_) => r is Err,
            LuaVal::Table { items, .. } => items@.len() > 0 && r is Ok ==> (
            match r->Ok_0.deep_view() {
                JsonView::Array(a) => a.len() == items@.len() && (0 <= i < items@.len() ==> item
                    is Ok && item->Ok_0.deep_view() == a[i]),
                _ => false,
            }),
            LuaVal::UserData(s) | LuaVal::Function(_, s) | LuaVal::Other(s) => r matches Ok(j)
                && j.deep_view() == JsonView::Str(s@),
        },
{
    law_values_keep_what_they_are(v.deep_view());
    if let LuaVal::Table { items, .. } = v {
        if 0 <= i < items@.len() {
            assert(v.deep_view()->items[i] == items@[i].deep_view());
        }
    }
}

/// How a value is printed: text plainly, a whole number in digits, and a table in braces with every
/// one of its pairs, the key and the value with a sign between them.
pub proof fn law_values_are_printed(v: LuaVal, s: String, i: int)
    requires
        call_ensures(lua_value_repr, (&v,), s),
    ensures
        match v {
            LuaVal::Nil => s@ == "nil"@,
            LuaVal::Boolean(b) => s@ == if b {
                "true"@
            } else {
                "false"@
            },
            LuaVal::Integer(n) => n >= 0 ==> s@ == decimal(n as nat),
            LuaVal::Number(n) => s@ == n.shown@,
            LuaVal::Str(t) => s@ == t@,
            LuaVal::Bytes(_) => s@.len() == 0,
            LuaVal::UserData(_) => s@ == "<userdata>"@,
            LuaVal::Function(_, t) | LuaVal::Other(t) => s@ == t@,
            LuaVal::Table { pairs, .. } => {
                &&& s@.len() >= 2
                &&& s@[0] == '{' && s@.last() == '}'
                &&& 0 <= i < pairs@.len() ==> stands_in(
                    s@,
                    lua_repr(pairs@[i].0.deep_view()) + seq!['='] + lua_repr(
                        pairs@[i].1.deep_view(),
                    ),
                )
                &&& pairs@.len() == 0 ==> s@.len() == 2
            },
        },
{
    reveal_strlit("");
    reveal_strlit("{");
    reveal_strlit("}");
    if let LuaVal::Table { pairs, .. } = v {
        let ps = v.deep_view()->pairs;
        let inner = pairs_repr(ps);
        assert(s@ == "{"@ + inner + "}"@);
        if 0 <= i < pairs@.len() {
            assert(ps[i] == (pairs@[i].0.deep_view(), pairs@[i].1.deep_view()));
            lemma_pair_is_printed(ps, i);
            let one = lua_repr(ps[i].0) + seq!['='] + lua_repr(ps[i].1);
            let (head, tail) = choose|head: Seq<char>, tail: Seq<char>|
                inner == #[trigger] (head + one + tail);
            assert(s@ =~= ("{"@ + head) + one + (tail + "}"@));
        }
    }
}

/// Whether `part` stands in `text`.
pub open spec fn stands_in(text: Seq<char>, part: Seq<char>) -> bool {
    exists|head: Seq<char>, tail: Seq<char>| text == #[trigger] (head + part + tail)
}

/// Every pair is printed.
proof fn lemma_pair_is_printed(pairs: Seq<(LuaView, LuaView)>, i: int)
    requires
        0 <= i < pairs.len(),
    ensures
        stands_in(
            pairs_repr(pairs),
            lua_repr(pairs[i].0) + seq!['='] + lua_repr(pairs[i].1),
        ),
    decreases pairs.len(),
{
    reveal_strlit("=");
    assert("="@ =~= seq!['=']);
    let text = pairs_repr(pairs);
    let last = lua_repr(pairs.last().0) + seq!['='] + lua_repr(pairs.last().1);
    let rest = pairs.drop_last();
    if i == pairs.len() - 1 {
        if pairs.len() == 1 {
            assert(text =~= seq![] + last + seq![]);
        } else {
            assert(text =~= (pairs_repr(rest) + ","@) + last + seq![]);
        }
    } else {
        assert(rest[i] == pairs[i]);
        lemma_pair_is_printed(rest, i);
        let one = lua_repr(pairs[i].0) + seq!['='] + lua_repr(pairs[i].1);
        let (head, tail) = choose|head: Seq<char>, tail: Seq<char>|
            pairs_repr(rest) == #[trigger] (head + one + tail);
        assert(text =~= head + one + (tail + (","@ + last)));
    }
}

} // verus!
