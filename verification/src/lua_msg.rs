//! The messages that scripts build.

use std::sync::Arc;

use vstd::prelude::*;
use vstd::string::*;

use crate::documents::{DataKey, DataKeyView, Document, Dtype};
use crate::error::{is_plan_error, CirrusError, Span};
use crate::lua_device::{not_playing, player, LuaDevice, Role};
use crate::lua_value::{
    items_view, key_of, key_text, last_under, lua_json, lua_value_to_json, lua_view, pairs_view,
    LuaVal, LuaView,
};
use crate::msg::{debug_str, str_debug, ConfigureArgs, Msg, ObjRef, RunMetadata};
use crate::strmap::StrMap;
use crate::text::{dec_u64, decimal, join2, join3, lemma_decimal_value, str_eq};
use crate::value::{json_get, Double, Json, JsonView};

verus! {

/// Hands out names for wait groups.
#[derive(Debug)]
pub struct AutoGroups {
    /// The number of the next name.
    pub next: u64,
}

impl AutoGroups {
    /// A source that has handed out nothing.
    pub fn new() -> (g: Self)
        ensures
            g.next == 0,
    {
        AutoGroups { next: 0 }
    }

    /// The next name.
    pub fn auto_group(&mut self) -> (s: String)
        ensures
            s@ == auto_name(old(self).next),
            final(self).next == old(self).next.wrapping_add(1),
    {
        let n: u64 = self.next;
        self.next = n.wrapping_add(1);
        join2("auto-", &dec_u64(n))
    }

    /// The given name, or the next one.
    fn group_or_next(&mut self, group: Option<String>) -> (s: String)
        ensures
            s@ == group_name(group, old(self).next),
            final(self).next == after_group(group, old(self).next),
    {
        match group {
            Some(g) => g,
            None => self.auto_group(),
        }
    }
}

/// The name of the given number.
pub open spec fn auto_name(n: u64) -> Seq<char> {
    "auto-"@ + decimal(n as nat)
}

/// No two groups are given the same name.
pub proof fn law_group_names_differ(a: u64, b: u64)
    requires
        a != b,
    ensures
        auto_name(a) != auto_name(b),
{
    let x = decimal(a as nat);
    let y = decimal(b as nat);
    lemma_decimal_value(a as nat);
    lemma_decimal_value(b as nat);
    assert(x != y);
    if auto_name(a) == auto_name(b) {
        let head = "auto-"@.len() as int;
        assert(auto_name(a).skip(head) =~= x);
        assert(auto_name(b).skip(head) =~= y);
    }
}

/// The given name of a group, or the next one.
pub open spec fn group_name(group: Option<String>, next: u64) -> Seq<char> {
    match group {
        Some(g) => g@,
        None => auto_name(next),
    }
}

/// The number of the next name, once a group has been named.
pub open spec fn after_group(group: Option<String>, next: u64) -> u64 {
    if group is None {
        next.wrapping_add(1)
    } else {
        next
    }
}

/// The pairs of a table as a map. With `plain`, the keys `plan_name` and `scan_id` are left out.
pub open spec fn lua_map(pairs: Seq<(LuaView, LuaView)>, plain: bool) -> Result<
    Map<Seq<char>, JsonView>,
    Seq<char>,
>
    decreases pairs.len(),
{
    if pairs.len() == 0 {
        Ok(Map::empty())
    } else {
        match lua_map(pairs.drop_last(), plain) {
            Err(e) => Err(e),
            Ok(m) => match key_text(pairs.last().0) {
                None => Ok(m),
                Some(k) => if plain && (k == "plan_name"@ || k == "scan_id"@) {
                    Ok(m)
                } else {
                    match lua_json(pairs.last().1) {
                        Err(e) => Err(e),
                        Ok(j) => Ok(m.insert(k, j)),
                    }
                },
            },
        }
    }
}

/// What fails on the first `n` pairs fails alike on all of them.
proof fn lemma_map_fails(pairs: Seq<(LuaView, LuaView)>, plain: bool, n: int)
    requires
        0 <= n <= pairs.len(),
        lua_map(pairs.take(n), plain) is Err,
    ensures
        lua_map(pairs, plain) == lua_map(pairs.take(n), plain),
    decreases pairs.len() - n,
{
    if n == pairs.len() {
        assert(pairs.take(n) =~= pairs);
    } else {
        assert(pairs.take(n + 1).drop_last() =~= pairs.take(n));
        lemma_map_fails(pairs, plain, n + 1);
    }
}

/// A result by its view.
pub open spec fn map_result(r: Result<StrMap<Json>, String>) -> Result<
    Map<Seq<char>, JsonView>,
    Seq<char>,
> {
    match r {
        Ok(m) => Ok(m@),
        Err(e) => Err(e@),
    }
}

/// Turns the pairs of a table into a map. With `plain`, the keys `plan_name` and `scan_id` are
/// left out.
fn pairs_to_map(pairs: &Vec<(LuaVal, LuaVal)>, plain: bool) -> (r: Result<StrMap<Json>, String>)
    ensures
        map_result(r) == lua_map(pairs_view(pairs@), plain),
{
    let ghost all = pairs_view(pairs@);
    let mut m: StrMap<Json> = StrMap::new();
    let mut i: usize = 0;
    assert(all.take(0) =~= seq![]);
    while i < pairs.len()
        invariant
            i <= pairs.len(),
            all == pairs_view(pairs@),
            lua_map(all.take(i as int), plain) == Ok::<Map<Seq<char>, JsonView>, Seq<char>>(m@),
        decreases pairs.len() - i,
    {
        proof {
            let next = all.take(i + 1);
            assert(next.drop_last() =~= all.take(i as int));
            assert(next.last() == (lua_view(pairs@[i as int].0), lua_view(pairs@[i as int].1)));
        }
        match key_of(&pairs[i].0) {
            None => {},
            Some(k) => {
                if !(plain && (str_eq(&k, "plan_name") || str_eq(&k, "scan_id"))) {
                    match lua_value_to_json(&pairs[i].1) {
                        Ok(j) => {
                            m.insert(k, j);
                        },
                        Err(e) => {
                            proof {
                                lemma_map_fails(all, plain, i + 1);
                            }
                            return Err(e);
                        },
                    }
                }
            },
        }
        i += 1;
    }
    assert(all.take(all.len() as int) =~= all);
    Ok(m)
}

/// Turns the pairs of a table into a map.
pub fn lua_table_to_json_md(pairs: &Vec<(LuaVal, LuaVal)>) -> (r: Result<StrMap<Json>, String>)
    ensures
        map_result(r) == lua_map(pairs_view(pairs@), false),
{
    pairs_to_map(pairs, false)
}

/// A table of run metadata.
#[derive(Debug)]
pub struct MetaTable {
    /// Its field `plan_name`, where that is text.
    pub plan_name: Option<String>,
    /// Its field `scan_id`, where that is a number.
    pub scan_id: Option<u64>,
    /// Its pairs.
    pub pairs: Vec<(LuaVal, LuaVal)>,
}

/// Whether `r` is the metadata that a table gives.
pub open spec fn metadata_of(t: Option<MetaTable>, r: Result<RunMetadata, String>) -> bool {
    match t {
        None => {
            &&& r matches Ok(m)
            &&& m.plan_name is None
            &&& m.scan_id is None
            &&& m.extra@ == Map::<Seq<char>, JsonView>::empty()
        },
        Some(t) => match lua_map(pairs_view(t.pairs@), true) {
            Ok(extra) => {
                &&& r matches Ok(m)
                &&& m.plan_name == t.plan_name
                &&& m.scan_id == t.scan_id
                &&& m.extra@ == extra
            },
            Err(e) => r matches Err(s) && s@ == e,
        },
    }
}

/// Turns a table into run metadata.
pub fn lua_table_to_metadata(t: Option<MetaTable>) -> (r: Result<RunMetadata, String>)
    ensures
        metadata_of(t, r),
{
    match t {
        None => Ok(RunMetadata::default()),
        Some(t) => match pairs_to_map(&t.pairs, true) {
            Ok(extra) => Ok(
                RunMetadata { scan_id: t.scan_id, extra, plan_name: t.plan_name },
            ),
            Err(e) => Err(e),
        },
    }
}

/// A table that describes one field.
#[derive(Debug)]
pub struct KeyTable {
    /// Its field `source`.
    pub source: Option<String>,
    /// Its field `dtype`.
    pub dtype: Option<String>,
    /// Its field `shape`.
    pub shape: Option<Vec<i64>>,
    /// Its field `dtype_numpy`.
    pub dtype_numpy: Option<String>,
    /// Its field `units`.
    pub units: Option<String>,
    /// Its field `precision`.
    pub precision: Option<i64>,
    /// Its field `object_name`.
    pub object_name: Option<String>,
}

/// The type of the given name.
pub open spec fn dtype_named(name: Seq<char>) -> Option<Dtype> {
    if name == "number"@ {
        Some(Dtype::Number)
    } else if name == "string"@ {
        Some(Dtype::String)
    } else if name == "boolean"@ {
        Some(Dtype::Boolean)
    } else if name == "integer"@ {
        Some(Dtype::Integer)
    } else if name == "array"@ {
        Some(Dtype::Array)
    } else {
        None
    }
}

/// A shape as a script writes it: a negative size is unknown.
pub open spec fn sizes(shape: Option<Vec<i64>>) -> Seq<Option<u64>> {
    match shape {
        None => seq![],
        Some(v) => v@.map_values(
            |n: i64|
                if n < 0 {
                    None
                } else {
                    Some(n as u64)
                },
        ),
    }
}

/// Text that may be missing, with what stands in for it.
pub open spec fn text_or(s: Option<String>, default: Seq<char>) -> Seq<char> {
    match s {
        Some(s) => s@,
        None => default,
    }
}

/// The key that a table describes, or what the script is told where its type is unknown.
pub open spec fn table_key(t: KeyTable) -> Result<DataKeyView, Seq<char>> {
    let name = text_or(t.dtype, "number"@);
    match dtype_named(name) {
        Some(dtype) => Ok(
            DataKeyView {
                source: text_or(t.source, "lua"@),
                dtype,
                shape: sizes(t.shape),
                dtype_numpy: t.dtype_numpy.deep_view(),
                external: None,
                units: t.units.deep_view(),
                precision: t.precision,
                object_name: t.object_name.deep_view(),
                dims: None,
                limits: None,
            },
        ),
        None => Err(
            "unknown dtype "@ + str_debug(name)
                + " (expected number/string/boolean/integer/array)"@,
        ),
    }
}

/// Turns a table into a data key.
pub fn lua_table_to_data_key(t: KeyTable) -> (r: Result<DataKey, String>)
    ensures
        match table_key(t) {
            Ok(k) => r matches Ok(d) && d.deep_view() == k,
            Err(e) => r matches Err(s) && s@ == e,
        },
{
    let source = match t.source {
        Some(s) => s,
        None => "lua".to_owned(),
    };
    let name = match t.dtype {
        Some(s) => s,
        None => "number".to_owned(),
    };
    let dtype = if str_eq(&name, "number") {
        Dtype::Number
    } else if str_eq(&name, "string") {
        Dtype::String
    } else if str_eq(&name, "boolean") {
        Dtype::Boolean
    } else if str_eq(&name, "integer") {
        Dtype::Integer
    } else if str_eq(&name, "array") {
        Dtype::Array
    } else {
        return Err(
            join3(
                "unknown dtype ",
                &debug_str(&name),
                " (expected number/string/boolean/integer/array)",
            ),
        );
    };
    let mut shape: Vec<Option<u64>> = Vec::new();
    match &t.shape {
        None => {
            assert(shape@ =~= sizes(t.shape));
        },
        Some(v) => {
            let mut i: usize = 0;
            assert(shape@ =~= sizes(t.shape).take(0));
            while i < v.len()
                invariant
                    i <= v.len(),
                    t.shape == Some(*v),
                    shape@ == sizes(t.shape).take(i as int),
                decreases v.len() - i,
            {
                shape.push(
                    if v[i] < 0 {
                        None
                    } else {
                        Some(v[i] as u64)
                    },
                );
                i += 1;
                assert(shape@ =~= sizes(t.shape).take(i as int));
            }
            assert(sizes(t.shape).take(v@.len() as int) =~= sizes(t.shape));
        },
    }
    Ok(
        DataKey {
            source,
            dtype,
            shape,
            dtype_numpy: t.dtype_numpy,
            external: None,
            units: t.units,
            precision: t.precision,
            object_name: t.object_name,
            dims: None,
            limits: None,
        },
    )
}

/// The keys that several tables describe, or the first failure.
pub open spec fn table_keys(tables: Seq<(String, KeyTable)>) -> Result<
    Map<Seq<char>, DataKeyView>,
    Seq<char>,
>
    decreases tables.len(),
{
    if tables.len() == 0 {
        Ok(Map::empty())
    } else {
        match table_keys(tables.drop_last()) {
            Err(e) => Err(e),
            Ok(m) => match table_key(tables.last().1) {
                Err(e) => Err(e),
                Ok(k) => Ok(m.insert(tables.last().0@, k)),
            },
        }
    }
}

/// What fails on the first `n` tables fails alike on all of them.
proof fn lemma_keys_fail(tables: Seq<(String, KeyTable)>, n: int)
    requires
        0 <= n <= tables.len(),
        table_keys(tables.take(n)) is Err,
    ensures
        table_keys(tables) == table_keys(tables.take(n)),
    decreases tables.len() - n,
{
    if n == tables.len() {
        assert(tables.take(n) =~= tables);
    } else {
        assert(tables.take(n + 1).drop_last() =~= tables.take(n));
        lemma_keys_fail(tables, n + 1);
    }
}

/// Turns several tables into data keys.
fn tables_to_keys(tables: Vec<(String, KeyTable)>) -> (r: Result<StrMap<DataKey>, String>)
    ensures
        match table_keys(tables@) {
            Ok(m) => r matches Ok(k) && k@ == m,
            Err(e) => r matches Err(s) && s@ == e,
        },
{
    let ghost all = tables@;
    let mut left = tables;
    let mut keys: StrMap<DataKey> = StrMap::new();
    let ghost mut done: int = 0;
    assert(all.take(0) =~= seq![]);
    assert(all.skip(0) =~= all);
    while left.len() > 0
        invariant
            all == tables@,
            0 <= done <= all.len(),
            left@ == all.skip(done),
            table_keys(all.take(done)) == Ok::<Map<Seq<char>, DataKeyView>, Seq<char>>(keys@),
        decreases left.len(),
    {
        let (name, table) = left.remove(0);
        proof {
            assert((name, table) == all[done]);
            assert(left@ =~= all.skip(done + 1));
            let next = all.take(done + 1);
            assert(next.drop_last() =~= all.take(done));
            assert(next.last() == all[done]);
            done = done + 1;
        }
        match lua_table_to_data_key(table) {
            Ok(k) => {
                keys.insert(name, k);
            },
            Err(e) => {
                proof {
                    lemma_keys_fail(all, done);
                }
                return Err(e);
            },
        }
    }
    assert(all.take(all.len() as int) =~= all);
    Ok(keys)
}

/// The functions among several values.
pub open spec fn functions_among(items: Seq<LuaView>) -> Seq<u64>
    decreases items.len(),
{
    if items.len() == 0 {
        seq![]
    } else {
        match items.last() {
            LuaView::Function(f, _) => functions_among(items.drop_last()).push(f),
            _ => functions_among(items.drop_last()),
        }
    }
}

/// Picks the functions among several values.
pub fn pick_functions(items: &Vec<LuaVal>) -> (fs: Vec<u64>)
    ensures
        fs@ == functions_among(items_view(items@)),
{
    let ghost all = items_view(items@);
    let mut fs: Vec<u64> = Vec::new();
    let mut i: usize = 0;
    assert(all.take(0) =~= seq![]);
    while i < items.len()
        invariant
            i <= items.len(),
            all == items_view(items@),
            fs@ == functions_among(all.take(i as int)),
        decreases items.len() - i,
    {
        proof {
            let next = all.take(i + 1);
            assert(next.drop_last() =~= all.take(i as int));
            assert(next.last() == lua_view(items@[i as int]));
        }
        if let LuaVal::Function(f, _) = &items[i] {
            fs.push(*f);
        }
        i += 1;
    }
    assert(all.take(all.len() as int) =~= all);
    fs
}

/// What waiting for one factory gives, where the function of the script returned nothing,
/// returned an error text, or raised an error.
pub fn factory_outcome(res: Result<Option<String>, String>) -> (r: Result<(), CirrusError>)
    ensures
        match res {
            Ok(None) => r is Ok,
            Ok(Some(s)) => r matches Err(e) && is_plan_error(e, s@),
            Err(e) => r matches Err(x) && is_plan_error(x, "wait_for factory: "@ + e@),
        },
{
    match res {
        Ok(None) => Ok(()),
        Ok(Some(s)) => Err(CirrusError::Plan(s)),
        Err(e) => Err(CirrusError::Plan(join2("wait_for factory: ", &e))),
    }
}

/// A kind of document that scripts can publish.
#[derive(Copy, Clone, Debug, PartialEq, Eq, Structural)]
pub enum PublishKind {
    /// A resource.
    Resource,
    /// A datum.
    Datum,
    /// A stream resource.
    StreamResource,
    /// A stream datum.
    StreamDatum,
    /// A page of events.
    EventPage,
    /// A page of datums.
    DatumPage,
}

/// The kind of the given name.
pub open spec fn publish_kind(name: Seq<char>) -> Option<PublishKind> {
    if name == "resource"@ {
        Some(PublishKind::Resource)
    } else if name == "datum"@ {
        Some(PublishKind::Datum)
    } else if name == "stream_resource"@ {
        Some(PublishKind::StreamResource)
    } else if name == "stream_datum"@ {
        Some(PublishKind::StreamDatum)
    } else if name == "event_page"@ {
        Some(PublishKind::EventPage)
    } else if name == "datum_page"@ {
        Some(PublishKind::DatumPage)
    } else {
        None
    }
}

/// The fields that the body of a document has to have.
pub open spec fn required_fields(k: PublishKind) -> Seq<Seq<char>> {
    match k {
        PublishKind::Resource => seq![
            "uid"@,
            "spec"@,
            "root"@,
            "resource_path"@,
            "path_semantics"@,
        ],
        PublishKind::Datum => seq!["datum_id"@, "resource"@],
        PublishKind::StreamResource => seq!["uid"@, "data_key"@, "mimetype"@, "uri"@],
        PublishKind::StreamDatum => seq![
            "uid"@,
            "stream_resource"@,
            "descriptor"@,
            "indices"@,
            "seq_nums"@,
        ],
        PublishKind::EventPage => seq![
            "uid"@,
            "descriptor"@,
            "time"@,
            "seq_num"@,
            "data"@,
            "timestamps"@,
        ],
        PublishKind::DatumPage => seq!["datum_id"@, "resource"@],
    }
}

/// Collects names.
fn names<const N: usize>(list: [&'static str; N]) -> (v: Vec<&'static str>)
    ensures
        v@ == list@,
{
    let mut v: Vec<&'static str> = Vec::new();
    let mut i: usize = 0;
    while i < N
        invariant
            i <= N,
            v@ == list@.take(i as int),
        decreases N - i,
    {
        v.push(list[i]);
        i += 1;
        assert(v@ =~= list@.take(i as int));
    }
    assert(list@.take(N as int) =~= list@);
    v
}

/// Names by their texts.
pub open spec fn names_view(v: Seq<&'static str>) -> Seq<Seq<char>> {
    v.map_values(|s: &'static str| s@)
}

/// The kind of the given name, and the fields that the body of such a document has to have.
pub fn publish_required_fields(kind: &str) -> (r: Option<(PublishKind, Vec<&'static str>)>)
    ensures
        match publish_kind(kind@) {
            Some(k) => r matches Some(p) && p.0 == k && names_view(p.1@) == required_fields(k),
            None => r is None,
        },
{
    let (k, v) = if str_eq(kind, "resource") {
        (
            PublishKind::Resource,
            names(["uid", "spec", "root", "resource_path", "path_semantics"]),
        )
    } else if str_eq(kind, "datum") {
        (PublishKind::Datum, names(["datum_id", "resource"]))
    } else if str_eq(kind, "stream_resource") {
        (PublishKind::StreamResource, names(["uid", "data_key", "mimetype", "uri"]))
    } else if str_eq(kind, "stream_datum") {
        (
            PublishKind::StreamDatum,
            names(["uid", "stream_resource", "descriptor", "indices", "seq_nums"]),
        )
    } else if str_eq(kind, "event_page") {
        (
            PublishKind::EventPage,
            names(["uid", "descriptor", "time", "seq_num", "data", "timestamps"]),
        )
    } else if str_eq(kind, "datum_page") {
        (PublishKind::DatumPage, names(["datum_id", "resource"]))
    } else {
        return None;
    };
    assert(names_view(v@) =~= required_fields(k));
    Some((k, v))
}

/// Whether an object has no member of the given name.
#[verifier::opaque]
pub open spec fn lacks(body: JsonView, name: Seq<char>) -> bool {
    json_get(body, name) is None
}

/// Whether an object has no member of the given name.
fn has_no(body: &Json, name: &str) -> (yes: bool)
    ensures
        yes == lacks(body.deep_view(), name@),
{
    reveal(lacks);
    body.get(name).is_none()
}

/// Those of the names that an object has no member for.
pub open spec fn missing_fields(required: Seq<Seq<char>>, body: JsonView) -> Seq<Seq<char>>
    decreases required.len(),
{
    if required.len() == 0 {
        seq![]
    } else {
        let before = missing_fields(required.drop_last(), body);
        if lacks(body, required.last()) {
            before.push(required.last())
        } else {
            before
        }
    }
}

/// Finds those of the names that an object has no member for.
fn find_missing(required: &Vec<&'static str>, body: &Json) -> (missing: Vec<&'static str>)
    ensures
        names_view(missing@) == missing_fields(names_view(required@), body.deep_view()),
{
    let ghost all = names_view(required@);
    let mut missing: Vec<&'static str> = Vec::new();
    let mut i: usize = 0;
    assert(all.take(0) =~= seq![]);
    assert(names_view(missing@) =~= seq![]);
    while i < required.len()
        invariant
            i <= required.len(),
            all == names_view(required@),
            names_view(missing@) == missing_fields(all.take(i as int), body.deep_view()),
        decreases required.len() - i,
    {
        let ghost next = all.take(i + 1);
        assert(next.drop_last() =~= all.take(i as int));
        assert(next.last() == required@[i as int]@);
        let ghost before = names_view(missing@);
        if has_no(body, required[i]) {
            missing.push(required[i]);
            assert(names_view(missing@) =~= before.push(required@[i as int]@));
        }
        i += 1;
    }
    assert(all.take(all.len() as int) =~= all);
    missing
}

/// Names in full: each quoted, with commas between them, in square brackets.
pub open spec fn list_debug(list: Seq<Seq<char>>) -> Seq<char> {
    "["@ + listed(list) + "]"@
}

/// Names, each quoted, with commas between them.
pub open spec fn listed(list: Seq<Seq<char>>) -> Seq<char>
    decreases list.len(),
{
    if list.len() == 0 {
        ""@
    } else if list.len() == 1 {
        str_debug(list[0])
    } else {
        listed(list.drop_last()) + ", "@ + str_debug(list.last())
    }
}

/// Shows names in full.
fn debug_list(list: &Vec<&'static str>) -> (s: String)
    ensures
        s@ == list_debug(names_view(list@)),
{
    let ghost all = names_view(list@);
    let mut text: String = "".to_owned();
    let mut i: usize = 0;
    assert(all.take(0) =~= seq![]);
    while i < list.len()
        invariant
            i <= list.len(),
            all == names_view(list@),
            text@ == listed(all.take(i as int)),
        decreases list.len() - i,
    {
        let one = debug_str(list[i]);
        let ghost next = all.take(i + 1);
        assert(next.drop_last() =~= all.take(i as int));
        assert(next.last() == list@[i as int]@);
        text = if i == 0 {
            one
        } else {
            join3(&text, ", ", &one)
        };
        i += 1;
    }
    assert(all.take(all.len() as int) =~= all);
    join3("[", &text, "]")
}

/// What a script is told when it asks to publish, or the kind of document.
pub open spec fn publish_checked(kind: Seq<char>, body: JsonView) -> Result<PublishKind, Seq<char>> {
    match publish_kind(kind) {
        None => Err(
            "unsupported publish kind "@ + str_debug(kind)
                + " (use one of: resource, datum, stream_resource, stream_datum, event_page, datum_page)"@,
        ),
        Some(k) => {
            let missing = missing_fields(required_fields(k), body);
            if !(body is Object) {
                Err(
                    "publish body must be a Lua table (got "@ + str_debug(kind)
                        + " body of non-object type)"@,
                )
            } else if missing.len() > 0 {
                Err(
                    "publish kind="@ + str_debug(kind) + " body missing required fields: "@
                        + list_debug(missing) + " (required: "@ + list_debug(required_fields(k))
                        + ")"@,
                )
            } else {
                Ok(k)
            }
        },
    }
}

/// Checks what a script asks to publish.
pub fn check_publish(kind: &str, body: &Json) -> (r: Result<PublishKind, String>)
    ensures
        match publish_checked(kind@, body.deep_view()) {
            Ok(k) => r == Ok::<PublishKind, String>(k),
            Err(e) => r matches Err(s) && s@ == e,
        },
{
    let (k, required) = match publish_required_fields(kind) {
        Some(p) => p,
        None => {
            return Err(
                join3(
                    "unsupported publish kind ",
                    &debug_str(kind),
                    " (use one of: resource, datum, stream_resource, stream_datum, event_page, datum_page)",
                ),
            );
        },
    };
    if !body.is_object() {
        return Err(
            join3(
                "publish body must be a Lua table (got ",
                &debug_str(kind),
                " body of non-object type)",
            ),
        );
    }
    let missing = find_missing(&required, body);
    if missing.len() > 0 {
        let start = join3("publish kind=", &debug_str(kind), " body missing required fields: ");
        let middle = join3(&start, &debug_list(&missing), " (required: ");
        return Err(join3(&middle, &debug_list(&required), ")"));
    }
    Ok(k)
}

/// A call that a script makes to build a message.
#[derive(Debug)]
pub enum MsgCall {
    /// `open_run(meta)`.
    OpenRun(Option<MetaTable>),
    /// `close_run(exit_status, reason)`.
    CloseRun(Option<String>, Option<String>),
    /// `create(stream)`.
    Create(Option<String>),
    /// `save()`.
    Save,
    /// `drop()`.
    Drop,
    /// `read(device)`.
    Read(LuaDevice),
    /// `set(device, value, group)`.
    SetValue(LuaDevice, Double, Option<String>),
    /// `trigger(device, group)`.
    Trigger(LuaDevice, Option<String>),
    /// `wait(group, timeout, error_on_timeout)`.
    Wait(String, Option<Span>, Option<bool>),
    /// `sleep(seconds)`.
    Sleep(Span),
    /// `checkpoint()`.
    Checkpoint,
    /// `clear_checkpoint()`.
    ClearCheckpoint,
    /// `rewindable(on)`.
    Rewindable(bool),
    /// `pause(defer)`.
    Pause(Option<bool>),
    /// `resume()`.
    Resume,
    /// `null()`.
    Null,
    /// `stage(device)`.
    Stage(LuaDevice),
    /// `unstage(device)`.
    Unstage(LuaDevice),
    /// `stop_dev(device, success)`.
    StopDev(LuaDevice, Option<bool>),
    /// `monitor(device, stream)`.
    Monitor(LuaDevice, Option<String>),
    /// `unmonitor(device)`.
    Unmonitor(LuaDevice),
    /// `locate(device)`.
    Locate(LuaDevice),
    /// `kickoff(device, group)`.
    Kickoff(LuaDevice, Option<String>),
    /// `complete(device, group)`.
    Complete(LuaDevice, Option<String>),
    /// `prepare(device, value, group)`.
    Prepare(LuaDevice, LuaVal, Option<String>),
    /// `wait_for(factories, timeout)`.
    WaitFor(Vec<LuaVal>, Option<Span>),
    /// `input(prompt)`.
    Input(Option<String>),
    /// `re_class()`.
    ReClass,
    /// `configure(device, args)`.
    Configure(LuaDevice, Vec<(LuaVal, LuaVal)>),
    /// `declare_stream(name, keys)`.
    DeclareStream(String, Vec<(String, KeyTable)>),
    /// `collect(device, stream)`.
    Collect(LuaDevice, Option<String>),
    /// `publish(document)`, once the document has been read.
    Publish(Document),
    /// `subscribe(callback)`, by the handle of the callback.
    Subscribe(u64),
    /// `unsubscribe(id)`.
    Unsubscribe(u64),
    /// `register_pausable(device)`.
    RegisterPausable(LuaDevice),
    /// `unregister_pausable(device)`.
    UnregisterPausable(LuaDevice),
    /// `remove_suspender(id)`.
    RemoveSuspender(u64),
}

/// Whether `r` is the message `m` about the object that plays the role, or what the script is
/// told where none does.
pub open spec fn about(d: LuaDevice, role: Role, r: Result<Msg, String>, m: spec_fn(ObjRef, Msg) -> bool) -> bool {
    match player(d, role) {
        Some(o) => r matches Ok(msg) && m(o, msg),
        None => r matches Err(e) && e@ == not_playing(d, role),
    }
}

/// Whether `r` is what a script gets of a call, where the next group has the number `next`.
pub open spec fn built(call: MsgCall, next: u64, r: Result<Msg, String>) -> bool {
    match call {
        MsgCall::OpenRun(t) => match r {
            Ok(m) => m matches Msg::OpenRun(md) && metadata_of(t, Ok(*md)),
            Err(e) => metadata_of(t, Err(e)),
        },
        MsgCall::CloseRun(es, reason) => {
            &&& r matches Ok(Msg::CloseRun { exit_status, reason: why })
            &&& exit_status@ == text_or(es, "success"@)
            &&& why == reason
        },
        MsgCall::Create(name) => {
            &&& r matches Ok(Msg::Create { stream_name })
            &&& stream_name@ == text_or(name, "primary"@)
        },
        MsgCall::Save => r == Ok::<Msg, String>(Msg::Save),
        MsgCall::Drop => r == Ok::<Msg, String>(Msg::Drop),
        MsgCall::Read(d) => about(d, Role::Readable, r, |o: ObjRef, m: Msg| m == Msg::Read(o)),
        MsgCall::SetValue(d, v, group) => about(
            d,
            Role::Movable,
            r,
            |o: ObjRef, m: Msg|
                {
                    &&& m matches Msg::SetValue { obj, value, group: Some(g) }
                    &&& obj == o
                    &&& value == v
                    &&& g@ == group_name(group, next)
                },
        ),
        MsgCall::Trigger(d, group) => about(
            d,
            Role::Triggerable,
            r,
            |o: ObjRef, m: Msg|
                {
                    &&& m matches Msg::Trigger { obj, group: Some(g) }
                    &&& obj == o
                    &&& g@ == group_name(group, next)
                },
        ),
        MsgCall::Wait(g, t, err) => {
            &&& r matches Ok(Msg::Wait { group, error_on_timeout, timeout })
            &&& group == g
            &&& timeout == t
            &&& error_on_timeout == (err != Some(false))
        },
        MsgCall::Sleep(t) => r == Ok::<Msg, String>(Msg::Sleep(t)),
        MsgCall::Checkpoint => r == Ok::<Msg, String>(Msg::Checkpoint),
        MsgCall::ClearCheckpoint => r == Ok::<Msg, String>(Msg::ClearCheckpoint),
        MsgCall::Rewindable(b) => r == Ok::<Msg, String>(Msg::Rewindable(b)),
        MsgCall::Pause(d) => r == Ok::<Msg, String>(Msg::Pause { defer: d == Some(true) }),
        MsgCall::Resume => r == Ok::<Msg, String>(Msg::Resume),
        MsgCall::Null => r == Ok::<Msg, String>(Msg::Null),
        MsgCall::Stage(d) => about(d, Role::Stageable, r, |o: ObjRef, m: Msg| m == Msg::Stage(o)),
        MsgCall::Unstage(d) => about(
            d,
            Role::Stageable,
            r,
            |o: ObjRef, m: Msg| m == Msg::Unstage(o),
        ),
        MsgCall::StopDev(d, s) => about(
            d,
            Role::Stoppable,
            r,
            |o: ObjRef, m: Msg| m == (Msg::Stop { obj: o, success: s != Some(false) }),
        ),
        MsgCall::Monitor(d, n) => about(
            d,
            Role::Monitorable,
            r,
            |o: ObjRef, m: Msg| m == (Msg::Monitor { obj: o, name: n }),
        ),
        MsgCall::Unmonitor(d) => about(
            d,
            Role::Monitorable,
            r,
            |o: ObjRef, m: Msg| m == Msg::Unmonitor(o),
        ),
        MsgCall::Locate(d) => about(d, Role::Locatable, r, |o: ObjRef, m: Msg| m == Msg::Locate(o)),
        MsgCall::Kickoff(d, group) => about(
            d,
            Role::Flyable,
            r,
            |o: ObjRef, m: Msg|
                {
                    &&& m matches Msg::Kickoff { obj, group: Some(g) }
                    &&& obj == o
                    &&& g@ == group_name(group, next)
                },
        ),
        MsgCall::Complete(d, group) => about(
            d,
            Role::Flyable,
            r,
            |o: ObjRef, m: Msg|
                {
                    &&& m matches Msg::Complete { obj, group: Some(g) }
                    &&& obj == o
                    &&& g@ == group_name(group, next)
                },
        ),
        MsgCall::Prepare(d, v, group) => match (
            player(d, Role::Preparable),
            lua_json(v.deep_view()),
        ) {
            (None, _) => r matches Err(e) && e@ == not_playing(d, Role::Preparable),
            (Some(_), Err(t)) => r matches Err(e) && e@ == t,
            (Some(o), Ok(j)) => {
                &&& r matches Ok(Msg::Prepare { obj, value, group: Some(g) })
                &&& obj == o
                &&& value.deep_view() == j
                &&& g@ == group_name(group, next)
            },
        },
        MsgCall::WaitFor(fs, t) => {
            &&& r matches Ok(Msg::WaitFor { factories, timeout })
            &&& factories@ == functions_among(items_view(fs@))
            &&& timeout == t
        },
        MsgCall::Input(p) => r matches Ok(Msg::Input { prompt }) && prompt@ == text_or(p, ""@),
        MsgCall::ReClass => r == Ok::<Msg, String>(Msg::ReClass),
        MsgCall::Configure(d, pairs) => match (
            player(d, Role::Configurable),
            lua_map(pairs_view(pairs@), false),
        ) {
            (None, _) => r matches Err(e) && e@ == not_playing(d, Role::Configurable),
            (Some(_), Err(t)) => r matches Err(e) && e@ == t,
            (Some(o), Ok(m)) => {
                &&& r matches Ok(Msg::Configure { obj, args })
                &&& obj == o
                &&& args.values@ == m
            },
        },
        MsgCall::DeclareStream(name, tables) => match table_keys(tables@) {
            Ok(m) => {
                &&& r matches Ok(Msg::DeclareStream { stream_name, data_keys })
                &&& stream_name == name
                &&& data_keys@ == m
            },
            Err(t) => r matches Err(e) && e@ == t,
        },
        MsgCall::Collect(d, n) => about(
            d,
            Role::Collectable,
            r,
            |o: ObjRef, m: Msg| m == (Msg::Collect { obj: o, stream_name: n }),
        ),
        MsgCall::Publish(doc) => r matches Ok(Msg::Publish(p)) && *p == doc,
        MsgCall::Subscribe(cb) => r == Ok::<Msg, String>(Msg::Subscribe(cb)),
        MsgCall::Unsubscribe(id) => r == Ok::<Msg, String>(Msg::Unsubscribe(id)),
        MsgCall::RegisterPausable(d) => about(
            d,
            Role::Pausable,
            r,
            |o: ObjRef, m: Msg| m == Msg::RegisterPausable(o),
        ),
        MsgCall::UnregisterPausable(d) => about(
            d,
            Role::Pausable,
            r,
            |o: ObjRef, m: Msg| m == Msg::UnregisterPausable(o),
        ),
        MsgCall::RemoveSuspender(id) => r == Ok::<Msg, String>(Msg::RemoveSuspender { id }),
    }
}

/// The number of the next group after a call that named one if it succeeded.
pub open spec fn next_group(call: MsgCall, next: u64, ok: bool) -> u64 {
    if !ok {
        next
    } else {
        match call {
            MsgCall::SetValue(_, _, group) => after_group(group, next),
            MsgCall::Trigger(_, group) => after_group(group, next),
            MsgCall::Kickoff(_, group) => after_group(group, next),
            MsgCall::Complete(_, group) => after_group(group, next),
            MsgCall::Prepare(_, _, group) => after_group(group, next),
            _ => next,
        }
    }
}

/// Text, or what stands in for it.
fn or_text(s: Option<String>, default: &str) -> (t: String)
    ensures
        t@ == text_or(s, default@),
{
    match s {
        Some(s) => s,
        None => default.to_owned(),
    }
}

/// Builds the message that a script asks for. A message that starts an operation on a device gets
/// a group of its own where the script names none.
pub fn build_msg(call: MsgCall, groups: &mut AutoGroups) -> (r: Result<Msg, String>)
    ensures
        built(call, old(groups).next, r),
        final(groups).next == next_group(call, old(groups).next, r is Ok),
{
    match call {
        MsgCall::OpenRun(t) => match lua_table_to_metadata(t) {
            Ok(m) => Ok(Msg::OpenRun(Arc::new(m))),
            Err(e) => Err(e),
        },
        MsgCall::CloseRun(es, reason) => Ok(
            Msg::CloseRun { exit_status: or_text(es, "success"), reason },
        ),
        MsgCall::Create(name) => Ok(Msg::Create { stream_name: or_text(name, "primary") }),
        MsgCall::Save => Ok(Msg::Save),
        MsgCall::Drop => Ok(Msg::Drop),
        MsgCall::Read(d) => match d.need(Role::Readable) {
            Ok(o) => Ok(Msg::Read(o)),
            Err(e) => Err(e),
        },
        MsgCall::SetValue(d, value, group) => match d.need(Role::Movable) {
            Ok(obj) => Ok(
                Msg::SetValue { obj, value, group: Some(groups.group_or_next(group)) },
            ),
            Err(e) => Err(e),
        },
        MsgCall::Trigger(d, group) => match d.need(Role::Triggerable) {
            Ok(obj) => Ok(Msg::Trigger { obj, group: Some(groups.group_or_next(group)) }),
            Err(e) => Err(e),
        },
        MsgCall::Wait(group, timeout, err) => Ok(
            Msg::Wait {
                group,
                timeout,
                error_on_timeout: match err {
                    Some(b) => b,
                    None => true,
                },
            },
        ),
        MsgCall::Sleep(t) => Ok(Msg::Sleep(t)),
        MsgCall::Checkpoint => Ok(Msg::Checkpoint),
        MsgCall::ClearCheckpoint => Ok(Msg::ClearCheckpoint),
        MsgCall::Rewindable(b) => Ok(Msg::Rewindable(b)),
        MsgCall::Pause(d) => Ok(
            Msg::Pause {
                defer: match d {
                    Some(b) => b,
                    None => false,
                },
            },
        ),
        MsgCall::Resume => Ok(Msg::Resume),
        MsgCall::Null => Ok(Msg::Null),
        MsgCall::Stage(d) => match d.need(Role::Stageable) {
            Ok(o) => Ok(Msg::Stage(o)),
            Err(e) => Err(e),
        },
        MsgCall::Unstage(d) => match d.need(Role::Stageable) {
            Ok(o) => Ok(Msg::Unstage(o)),
            Err(e) => Err(e),
        },
        MsgCall::StopDev(d, s) => match d.need(Role::Stoppable) {
            Ok(obj) => Ok(
                Msg::Stop {
                    obj,
                    success: match s {
                        Some(b) => b,
                        None => true,
                    },
                },
            ),
            Err(e) => Err(e),
        },
        MsgCall::Monitor(d, name) => match d.need(Role::Monitorable) {
            Ok(obj) => Ok(Msg::Monitor { obj, name }),
            Err(e) => Err(e),
        },
        MsgCall::Unmonitor(d) => match d.need(Role::Monitorable) {
            Ok(o) => Ok(Msg::Unmonitor(o)),
            Err(e) => Err(e),
        },
        MsgCall::Locate(d) => match d.need(Role::Locatable) {
            Ok(o) => Ok(Msg::Locate(o)),
            Err(e) => Err(e),
        },
        MsgCall::Kickoff(d, group) => match d.need(Role::Flyable) {
            Ok(obj) => Ok(Msg::Kickoff { obj, group: Some(groups.group_or_next(group)) }),
            Err(e) => Err(e),
        },
        MsgCall::Complete(d, group) => match d.need(Role::Flyable) {
            Ok(obj) => Ok(Msg::Complete { obj, group: Some(groups.group_or_next(group)) }),
            Err(e) => Err(e),
        },
        MsgCall::Prepare(d, v, group) => match d.need(Role::Preparable) {
            Ok(obj) => match lua_value_to_json(&v) {
                Ok(j) => Ok(
                    Msg::Prepare {
                        obj,
                        value: Arc::new(j),
                        group: Some(groups.group_or_next(group)),
                    },
                ),
                Err(e) => Err(e),
            },
            Err(e) => Err(e),
        },
        MsgCall::WaitFor(fs, timeout) => Ok(
            Msg::WaitFor { factories: Arc::new(pick_functions(&fs)), timeout },
        ),
        MsgCall::Input(p) => Ok(Msg::Input { prompt: or_text(p, "") }),
        MsgCall::ReClass => Ok(Msg::ReClass),
        MsgCall::Configure(d, pairs) => match d.need(Role::Configurable) {
            Ok(obj) => match pairs_to_map(&pairs, false) {
                Ok(values) => Ok(
                    Msg::Configure { obj, args: Arc::new(ConfigureArgs { values }) },
                ),
                Err(e) => Err(e),
            },
            Err(e) => Err(e),
        },
        MsgCall::DeclareStream(stream_name, tables) => match tables_to_keys(tables) {
            Ok(keys) => Ok(Msg::DeclareStream { stream_name, data_keys: Arc::new(keys) }),
            Err(e) => Err(e),
        },
        MsgCall::Collect(d, stream_name) => match d.need(Role::Collectable) {
            Ok(obj) => Ok(Msg::Collect { obj, stream_name }),
            Err(e) => Err(e),
        },
        MsgCall::Publish(doc) => Ok(Msg::Publish(Arc::new(doc))),
        MsgCall::Subscribe(cb) => Ok(Msg::Subscribe(cb)),
        MsgCall::Unsubscribe(id) => Ok(Msg::Unsubscribe(id)),
        MsgCall::RegisterPausable(d) => match d.need(Role::Pausable) {
            Ok(o) => Ok(Msg::RegisterPausable(o)),
            Err(e) => Err(e),
        },
        MsgCall::UnregisterPausable(d) => match d.need(Role::Pausable) {
            Ok(o) => Ok(Msg::UnregisterPausable(o)),
            Err(e) => Err(e),
        },
        MsgCall::RemoveSuspender(id) => Ok(Msg::RemoveSuspender { id }),
    }
}

/// Whether a group is the one that the script names, or else one that carries the next number.
pub open spec fn is_group(g: String, named: Option<String>, next: u64) -> bool {
    match named {
        Some(n) => g@ == n@,
        None => g@ == "auto-"@ + decimal(next as nat),
    }
}

/// A message about a device is about the object that plays the role that it needs, and carries what
/// the script gave. It is built exactly where the device plays the role.
pub proof fn law_device_messages_carry_what_was_given(
    call: MsgCall,
    next: u64,
    r: Result<Msg, String>,
)
    requires
        built(call, next, r),
    ensures
        match call {
            MsgCall::Read(d) => (r is Ok <==> d.readable is Some) && (r matches Ok(m) ==> m == Msg::Read(d.readable->0)),
            MsgCall::Stage(d) => (r is Ok <==> d.stageable is Some) && (r matches Ok(m) ==> m == Msg::Stage(d.stageable->0)),
            MsgCall::Unstage(d) => (r is Ok <==> d.stageable is Some) && (r matches Ok(m) ==> m == Msg::Unstage(d.stageable->0)),
            MsgCall::StopDev(d, s) => (r is Ok <==> d.stoppable is Some) && (r matches Ok(m) ==> m == (Msg::Stop { obj: d.stoppable->0, success: s is None || s->0 })),
            MsgCall::Monitor(d, n) => (r is Ok <==> d.monitorable is Some) && (r matches Ok(m) ==> m == (Msg::Monitor { obj: d.monitorable->0, name: n })),
            MsgCall::Unmonitor(d) => (r is Ok <==> d.monitorable is Some) && (r matches Ok(m) ==> m == Msg::Unmonitor(d.monitorable->0)),
            MsgCall::Locate(d) => (r is Ok <==> d.locatable is Some) && (r matches Ok(m) ==> m == Msg::Locate(d.locatable->0)),
            MsgCall::Collect(d, n) => (r is Ok <==> d.collectable is Some) && (r matches Ok(m) ==> m == (Msg::Collect { obj: d.collectable->0, stream_name: n })),
            MsgCall::RegisterPausable(d) => (r is Ok <==> d.pausable is Some) && (r matches Ok(m) ==> m == Msg::RegisterPausable(d.pausable->0)),
            MsgCall::UnregisterPausable(d) => (r is Ok <==> d.pausable is Some) && (r matches Ok(m) ==> m == Msg::UnregisterPausable(d.pausable->0)),
            MsgCall::SetValue(d, v, group) => (r is Ok <==> d.movable is Some) && (r matches Ok(m) ==> (m matches Msg::SetValue { obj, value, group: Some(g) }
                && obj == d.movable->0 && value == v && is_group(g, group, next))),
            MsgCall::Trigger(d, group) => (r is Ok <==> d.triggerable is Some) && (r matches Ok(m) ==> (m matches Msg::Trigger { obj, group: Some(g) }
                && obj == d.triggerable->0 && is_group(g, group, next))),
            MsgCall::Kickoff(d, group) => (r is Ok <==> d.flyable is Some) && (r matches Ok(m) ==> (m matches Msg::Kickoff { obj, group: Some(g) }
                && obj == d.flyable->0 && is_group(g, group, next))),
            MsgCall::Complete(d, group) => (r is Ok <==> d.flyable is Some) && (r matches Ok(m) ==> (m matches Msg::Complete { obj, group: Some(g) }
                && obj == d.flyable->0 && is_group(g, group, next))),
            MsgCall::Prepare(d, v, group) => (r is Ok <==> d.preparable is Some && lua_json(
                v.deep_view(),
            ) is Ok) && (r matches Ok(m) ==> (m matches Msg::Prepare {
                obj,
                value,
                group: Some(g),
            } && obj == d.preparable->0 && lua_json(v.deep_view()) == Ok::<JsonView, Seq<char>>(
                value.deep_view(),
            ) && is_group(g, group, next))),
            MsgCall::Configure(d, pairs) => (r is Ok <==> d.configurable is Some && lua_map(
                pairs_view(pairs@),
                false,
            ) is Ok) && (r matches Ok(m) ==> (m matches Msg::Configure { obj, args } && obj
                == d.configurable->0 && lua_map(pairs_view(pairs@), false) == Ok::<
                Map<Seq<char>, JsonView>,
                Seq<char>,
            >(args.values@))),
            _ => true,
        },
{
}

/// A message that is about no device carries what the script gave, or what stands in for it: the
/// status `success`, the stream `primary`, an empty prompt, a wait that fails on a timeout, and a
/// pause that is not deferred.
pub proof fn law_plain_messages_carry_what_was_given(
    call: MsgCall,
    next: u64,
    r: Result<Msg, String>,
)
    requires
        built(call, next, r),
    ensures
        match call {
            MsgCall::CloseRun(status, why) => r matches Ok(m) && (m matches Msg::CloseRun {
                exit_status,
                reason,
            } && reason == why && exit_status@ == match status {
                Some(s) => s@,
                None => "success"@,
            }),
            MsgCall::Create(name) => r matches Ok(m) && (m matches Msg::Create { stream_name }
                && stream_name@ == match name {
                Some(s) => s@,
                None => "primary"@,
            }),
            MsgCall::Input(p) => r matches Ok(m) && (m matches Msg::Input { prompt } && prompt@
                == match p {
                Some(s) => s@,
                None => ""@,
            }),
            MsgCall::Wait(g, t, strict) => r == Ok::<Msg, String>(
                Msg::Wait { group: g, error_on_timeout: strict is None || strict->0, timeout: t },
            ),
            MsgCall::Pause(d) => r == Ok::<Msg, String>(Msg::Pause { defer: d is Some && d->0 }),
            MsgCall::Save => r == Ok::<Msg, String>(Msg::Save),
            MsgCall::Drop => r == Ok::<Msg, String>(Msg::Drop),
            MsgCall::Sleep(t) => r == Ok::<Msg, String>(Msg::Sleep(t)),
            MsgCall::Checkpoint => r == Ok::<Msg, String>(Msg::Checkpoint),
            MsgCall::ClearCheckpoint => r == Ok::<Msg, String>(Msg::ClearCheckpoint),
            MsgCall::Rewindable(b) => r == Ok::<Msg, String>(Msg::Rewindable(b)),
            MsgCall::Resume => r == Ok::<Msg, String>(Msg::Resume),
            MsgCall::Null => r == Ok::<Msg, String>(Msg::Null),
            MsgCall::ReClass => r == Ok::<Msg, String>(Msg::ReClass),
            MsgCall::Subscribe(cb) => r == Ok::<Msg, String>(Msg::Subscribe(cb)),
            MsgCall::Unsubscribe(id) => r == Ok::<Msg, String>(Msg::Unsubscribe(id)),
            MsgCall::RemoveSuspender(id) => r == Ok::<Msg, String>(Msg::RemoveSuspender { id }),
            MsgCall::Publish(doc) => r matches Ok(m) && (m matches Msg::Publish(p) && *p == doc),
            MsgCall::WaitFor(fs, t) => r matches Ok(m) && (m matches Msg::WaitFor {
                factories,
                timeout,
            } && timeout == t && factories@ == functions_among(items_view(fs@))),
            MsgCall::OpenRun(None) => r matches Ok(m) && (m matches Msg::OpenRun(md) && md.plan_name
                is None && md.scan_id is None && md.extra@ == Map::<Seq<char>, JsonView>::empty()),
            MsgCall::OpenRun(Some(t)) => match lua_map(pairs_view(t.pairs@), true) {
                Ok(extra) => r matches Ok(m) && (m matches Msg::OpenRun(md) && md.plan_name
                    == t.plan_name && md.scan_id == t.scan_id && md.extra@ == extra),
                Err(_) => r is Err,
            },
            MsgCall::DeclareStream(name, tables) => match table_keys(tables@) {
                Ok(keys) => r matches Ok(m) && (m matches Msg::DeclareStream {
                    stream_name,
                    data_keys,
                } && stream_name == name && data_keys@ == keys),
                Err(_) => r is Err,
            },
            _ => true,
        },
{
}

/// Two messages that a script builds one after the other without naming a group wait in groups of
/// their own.
pub proof fn law_unnamed_groups_are_their_own(
    a: LuaDevice,
    b: LuaDevice,
    x: Double,
    y: Double,
    next: u64,
    r1: Result<Msg, String>,
    r2: Result<Msg, String>,
)
    requires
        next < u64::MAX,
        built(MsgCall::SetValue(a, x, None), next, r1),
        built(
            MsgCall::SetValue(b, y, None),
            next_group(MsgCall::SetValue(a, x, None), next, r1 is Ok),
            r2,
        ),
        r1 is Ok,
        r2 is Ok,
    ensures
        match (r1->Ok_0, r2->Ok_0) {
            (
                Msg::SetValue { group: Some(g), .. },
                Msg::SetValue { group: Some(h), .. },
            ) => g@ != h@,
            _ => false,
        },
{
    law_group_names_differ(next, (next + 1) as u64);
}

/// The metadata of a table hold, under each key, the JSON form of what the last pair with the key
/// holds, and nothing else. In the metadata of a run, `plan_name` and `scan_id` have places of their
/// own and are left out.
pub proof fn law_metadata_hold_the_table(pairs: Seq<(LuaView, LuaView)>, plain: bool, k: Seq<char>)
    ensures
        lua_map(pairs, plain) matches Ok(m) ==> {
            &&& plain && (k == "plan_name"@ || k == "scan_id"@) ==> !m.dom().contains(k)
            &&& !(plain && (k == "plan_name"@ || k == "scan_id"@)) ==> {
                &&& m.dom().contains(k) <==> last_under(pairs, k) is Some
                &&& m.dom().contains(k) ==> lua_json(last_under(pairs, k)->0) == Ok::<
                    JsonView,
                    Seq<char>,
                >(m[k])
            }
        },
    decreases pairs.len(),
{
    if pairs.len() > 0 {
        law_metadata_hold_the_table(pairs.drop_last(), plain, k);
    }
}

/// A table that describes a field gives a key with what the table has: its source and its type, which
/// are `lua` and `number` where it has none, its shape, in which a negative size is unknown, its
/// units, its precision, its device and its storage type. It is refused where its type has no known
/// name.
pub proof fn law_key_tables_keep_what_they_say(t: KeyTable, r: Result<DataKey, String>)
    requires
        call_ensures(lua_table_to_data_key, (t,), r),
    ensures
        ({
            let name = match t.dtype {
                Some(n) => n@,
                None => "number"@,
            };
            &&& r is Ok <==> name == "number"@ || name == "string"@ || name == "boolean"@ || name
                == "integer"@ || name == "array"@
            &&& r matches Ok(k) ==> {
                &&& name == "number"@ ==> k.dtype == Dtype::Number
                &&& name == "string"@ ==> k.dtype == Dtype::String
                &&& name == "boolean"@ ==> k.dtype == Dtype::Boolean
                &&& name == "integer"@ ==> k.dtype == Dtype::Integer
                &&& name == "array"@ ==> k.dtype == Dtype::Array
                &&& k.deep_view().source == match t.source {
                    Some(s) => s@,
                    None => "lua"@,
                }
                &&& k.deep_view().units == t.units.deep_view()
                &&& k.deep_view().precision == t.precision
                &&& k.deep_view().object_name == t.object_name.deep_view()
                &&& k.deep_view().dtype_numpy == t.dtype_numpy.deep_view()
                &&& match t.shape {
                    None => k.deep_view().shape.len() == 0,
                    Some(v) => k.deep_view().shape.len() == v@.len() && forall|i: int|
                        0 <= i < v@.len() ==> #[trigger] k.deep_view().shape[i] == if v@[i] < 0 {
                            None
                        } else {
                            Some(v@[i] as u64)
                        },
                }
            }
        }),
{
    reveal_strlit("number");
    reveal_strlit("string");
    reveal_strlit("boolean");
    reveal_strlit("integer");
    reveal_strlit("array");
    assert("number"@[0] == 'n' && "string"@[0] == 's' && "boolean"@[0] == 'b' && "integer"@[0]
        == 'i' && "array"@[0] == 'a');
}

/// The functions among several values are those that are functions, in order: a value that is one
/// comes last among them, and any other changes nothing.
pub proof fn law_functions_are_picked_in_order(items: Seq<LuaView>, v: LuaView)
    ensures
        functions_among(seq![]) == Seq::<u64>::empty(),
        v matches LuaView::Function(f, _) ==> functions_among(items.push(v)) == functions_among(
            items,
        ).push(f),
        !(v is Function) ==> functions_among(items.push(v)) == functions_among(items),
{
    assert(items.push(v).drop_last() =~= items);
}

/// A document is published only where its kind is known and its body is an object with every field
/// that the kind requires.
pub proof fn law_published_documents_are_complete(
    kind: &str,
    body: Json,
    r: Result<PublishKind, String>,
)
    requires
        call_ensures(check_publish, (kind, &body), r),
    ensures
        r matches Ok(k) ==> {
            &&& body.deep_view() is Object
            &&& k is Resource <==> kind@ == "resource"@
            &&& k is Datum <==> kind@ == "datum"@
            &&& k is StreamResource <==> kind@ == "stream_resource"@
            &&& k is StreamDatum <==> kind@ == "stream_datum"@
            &&& k is EventPage <==> kind@ == "event_page"@
            &&& k is DatumPage <==> kind@ == "datum_page"@
            &&& forall|f: Seq<char>| #[trigger]
                required_fields(k).contains(f) ==> json_get(body.deep_view(), f) is Some
            &&& k is Resource ==> json_get(body.deep_view(), "uid"@) is Some && json_get(body.deep_view(), "spec"@) is Some && json_get(body.deep_view(), "root"@) is Some && json_get(body.deep_view(), "resource_path"@) is Some && json_get(body.deep_view(), "path_semantics"@) is Some
            &&& k is Datum ==> json_get(body.deep_view(), "datum_id"@) is Some && json_get(body.deep_view(), "resource"@) is Some
            &&& k is StreamResource ==> json_get(body.deep_view(), "uid"@) is Some && json_get(body.deep_view(), "data_key"@) is Some && json_get(body.deep_view(), "mimetype"@) is Some && json_get(body.deep_view(), "uri"@) is Some
            &&& k is StreamDatum ==> json_get(body.deep_view(), "uid"@) is Some && json_get(body.deep_view(), "stream_resource"@) is Some && json_get(body.deep_view(), "descriptor"@) is Some && json_get(body.deep_view(), "indices"@) is Some && json_get(body.deep_view(), "seq_nums"@) is Some
            &&& k is EventPage ==> json_get(body.deep_view(), "uid"@) is Some && json_get(body.deep_view(), "descriptor"@) is Some && json_get(body.deep_view(), "time"@) is Some && json_get(body.deep_view(), "seq_num"@) is Some && json_get(body.deep_view(), "data"@) is Some && json_get(body.deep_view(), "timestamps"@) is Some
            &&& k is DatumPage ==> json_get(body.deep_view(), "datum_id"@) is Some && json_get(body.deep_view(), "resource"@) is Some
        },
        r is Err && body.deep_view() is Object && publish_kind(kind@) is Some ==> exists|f: Seq<char>|
            #[trigger] required_fields(publish_kind(kind@)->0).contains(f) && json_get(
                body.deep_view(),
                f,
            ) is None,
{
    reveal_strlit("resource");
    reveal_strlit("datum");
    reveal_strlit("stream_resource");
    reveal_strlit("stream_datum");
    reveal_strlit("event_page");
    reveal_strlit("datum_page");
    assert("resource"@.len() == 8 && "datum"@.len() == 5 && "stream_resource"@.len() == 15
        && "stream_datum"@.len() == 12 && "event_page"@.len() == 10 && "datum_page"@.len() == 10);
    assert("event_page"@[0] == 'e' && "datum_page"@[0] == 'd');
    match publish_kind(kind@) {
        Some(k) => lemma_missing(required_fields(k), body.deep_view()),
        None => {},
    }
    if r is Ok && r->Ok_0 is Resource {
        let fs = required_fields(PublishKind::Resource);
        assert(fs[0] == "uid"@ && fs[1] == "spec"@ && fs[2] == "root"@ && fs[3] == "resource_path"@ && fs[4] == "path_semantics"@);
        assert(fs.contains("uid"@) && fs.contains("spec"@) && fs.contains("root"@) && fs.contains("resource_path"@) && fs.contains("path_semantics"@));
    }
    if r is Ok && r->Ok_0 is Datum {
        let fs = required_fields(PublishKind::Datum);
        assert(fs[0] == "datum_id"@ && fs[1] == "resource"@);
        assert(fs.contains("datum_id"@) && fs.contains("resource"@));
    }
    if r is Ok && r->Ok_0 is StreamResource {
        let fs = required_fields(PublishKind::StreamResource);
        assert(fs[0] == "uid"@ && fs[1] == "data_key"@ && fs[2] == "mimetype"@ && fs[3] == "uri"@);
        assert(fs.contains("uid"@) && fs.contains("data_key"@) && fs.contains("mimetype"@) && fs.contains("uri"@));
    }
    if r is Ok && r->Ok_0 is StreamDatum {
        let fs = required_fields(PublishKind::StreamDatum);
        assert(fs[0] == "uid"@ && fs[1] == "stream_resource"@ && fs[2] == "descriptor"@ && fs[3] == "indices"@ && fs[4] == "seq_nums"@);
        assert(fs.contains("uid"@) && fs.contains("stream_resource"@) && fs.contains("descriptor"@) && fs.contains("indices"@) && fs.contains("seq_nums"@));
    }
    if r is Ok && r->Ok_0 is EventPage {
        let fs = required_fields(PublishKind::EventPage);
        assert(fs[0] == "uid"@ && fs[1] == "descriptor"@ && fs[2] == "time"@ && fs[3] == "seq_num"@ && fs[4] == "data"@ && fs[5] == "timestamps"@);
        assert(fs.contains("uid"@) && fs.contains("descriptor"@) && fs.contains("time"@) && fs.contains("seq_num"@) && fs.contains("data"@) && fs.contains("timestamps"@));
    }
    if r is Ok && r->Ok_0 is DatumPage {
        let fs = required_fields(PublishKind::DatumPage);
        assert(fs[0] == "datum_id"@ && fs[1] == "resource"@);
        assert(fs.contains("datum_id"@) && fs.contains("resource"@));
    }
}

/// A field is missing where the object has no member of its name.
proof fn lemma_missing(required: Seq<Seq<char>>, body: JsonView)
    ensures
        missing_fields(required, body).len() == 0 <==> forall|f: Seq<char>| #[trigger]
            required.contains(f) ==> json_get(body, f) is Some,
    decreases required.len(),
{
    reveal(lacks);
    if required.len() > 0 {
        let rest = required.drop_last();
        lemma_missing(rest, body);
        let last = required.last();
        assert(required[required.len() - 1] == last);
        assert forall|f: Seq<char>| #[trigger] required.contains(f) implies f == last
            || rest.contains(f) by {
            let i = choose|i: int| 0 <= i < required.len() && required[i] == f;
            if i < rest.len() {
                assert(rest[i] == f);
            }
        }
        assert forall|f: Seq<char>| #[trigger] rest.contains(f) implies required.contains(f) by {
            let i = choose|i: int| 0 <= i < rest.len() && rest[i] == f;
            assert(required[i] == f);
        }
        assert(required.contains(last));
    }
}

/// Messages are built as they are said to be.
pub proof fn law_messages_are_built(call: MsgCall, g: &mut AutoGroups, r: Result<Msg, String>, n: AutoGroups)
    requires
        call_ensures(build_msg, (call, g), r),
        call_ensures(AutoGroups::new, (), n),
    ensures
        built(call, old(g).next, r),
        n.next == 0,
{
}

/// Tables that describe the fields of a stream give one key for each name, that of the last table of
/// the name, and none for any other; one table that describes no field refuses them all.
pub proof fn law_stream_tables_give_their_keys(
    tables: Seq<(String, KeyTable)>,
    k: Seq<char>,
    i: int,
    r: Result<DataKey, String>,
)
    ensures
        table_keys(tables) matches Ok(m) ==> (m.dom().contains(k) <==> exists|j: int|
            0 <= j < tables.len() && (#[trigger] tables[j]).0@ == k),
        table_keys(tables) matches Ok(m) ==> (0 <= i < tables.len() && call_ensures(
            lua_table_to_data_key,
            (tables[i].1,),
            r,
        ) ==> r is Ok && ((forall|j: int|
            i < j < tables.len() ==> (#[trigger] tables[j]).0@ != tables[i].0@)
            ==> m[tables[i].0@] == r->Ok_0.deep_view())),
        table_keys(tables) is Err ==> exists|j: int|
            0 <= j < tables.len() && table_key((#[trigger] tables[j]).1) is Err,
    decreases tables.len(),
{
    if tables.len() > 0 {
        let rest = tables.drop_last();
        let last = tables.len() - 1;
        law_stream_tables_give_their_keys(rest, k, i, r);
        assert(tables[last] == tables.last());
        if let Ok(m) = table_keys(tables) {
            if exists|j: int| 0 <= j < rest.len() && (#[trigger] rest[j]).0@ == k {
                let j = choose|j: int| 0 <= j < rest.len() && (#[trigger] rest[j]).0@ == k;
                assert(tables[j].0@ == k);
            }
            if exists|j: int| 0 <= j < tables.len() && (#[trigger] tables[j]).0@ == k {
                let j = choose|j: int| 0 <= j < tables.len() && (#[trigger] tables[j]).0@ == k;
                if j < last {
                    assert(rest[j].0@ == k);
                }
            }
            if 0 <= i < last {
                assert(rest[i] == tables[i]);
                if forall|j: int|
                    i < j < tables.len() ==> (#[trigger] tables[j]).0@ != tables[i].0@ {
                    assert forall|j: int| i < j < rest.len() implies (#[trigger] rest[j]).0@
                        != rest[i].0@ by {
                        assert(rest[j] == tables[j]);
                    }
                    assert(tables[last].0@ != tables[i].0@);
                }
            }
        } else {
            if table_keys(rest) is Err {
                let j = choose|j: int|
                    0 <= j < rest.len() && table_key((#[trigger] rest[j]).1) is Err;
                assert(tables[j] == rest[j]);
            }
        }
    }
}

} // verus!
