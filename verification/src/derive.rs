//! What the attributes of a device type come to.

use vstd::prelude::*;
use vstd::string::*;

use crate::kind::Kind;
use crate::text::{
    chars_of, dec_u64, decimal, find_char, has_prefix, join2, join3, lemma_find_char, split_at_char,
    split_once, str_eq,
};

verus! {

/// An attribute: its name, and the text of its arguments if it has a list of them.
#[derive(Debug)]
pub struct Attr {
    /// The name.
    pub name: String,
    /// The text of its arguments.
    pub args: Option<String>,
}

/// The type of a field: its text, the last name of its path, and the text of its first type
/// argument.
#[derive(Debug)]
pub struct FieldTy {
    /// The text.
    pub text: String,
    /// The last name of its path, if it is a path.
    pub last: Option<String>,
    /// Its first argument in angle brackets, if that is a type.
    pub first_arg: Option<String>,
}

/// A field of a device type.
#[derive(Debug)]
pub struct FieldInput {
    /// The name.
    pub id: String,
    /// The attributes.
    pub attrs: Vec<Attr>,
    /// The type.
    pub ty: FieldTy,
}

/// The text between the first two double quotes.
pub open spec fn quoted(s: Seq<char>) -> Option<Seq<char>> {
    match split_at_char(s, '"') {
        None => None,
        Some((_, rest)) => match split_at_char(rest, '"') {
            None => None,
            Some((inside, _)) => Some(inside),
        },
    }
}

/// The first text in double quotes among the arguments of the attributes of the given name.
pub open spec fn string_attr(attrs: Seq<Attr>, name: Seq<char>) -> Option<Seq<char>>
    decreases attrs.len(),
{
    if attrs.len() == 0 {
        None
    } else {
        let here = match attrs[0].args {
            Some(a) => if attrs[0].name@ == name {
                quoted(a@)
            } else {
                None
            },
            None => None,
        };
        match here {
            Some(s) => Some(s),
            None => string_attr(attrs.skip(1), name),
        }
    }
}

/// The text between the first two double quotes.
fn find_quoted(s: &str) -> (t: Option<String>)
    ensures
        t.deep_view() == quoted(s@),
{
    match split_once(s, '"') {
        None => None,
        Some((_, rest)) => match split_once(&rest, '"') {
            None => None,
            Some((inside, _)) => Some(inside),
        },
    }
}

/// Finds the first text in double quotes among the arguments of the attributes of the given name.
pub fn parse_string_attr(field: &FieldInput, name: &str) -> (t: Option<String>)
    ensures
        t.deep_view() == string_attr(field.attrs@, name@),
{
    let attrs = &field.attrs;
    let mut i: usize = 0;
    assert(attrs@.skip(0) =~= attrs@);
    while i < attrs.len()
        invariant
            i <= attrs.len(),
            attrs@ == field.attrs@,
            string_attr(field.attrs@, name@) == string_attr(attrs@.skip(i as int), name@),
        decreases attrs.len() - i,
    {
        assert(attrs@.skip(i as int)[0] == attrs@[i as int]);
        assert(attrs@.skip(i as int).skip(1) =~= attrs@.skip(i + 1));
        if str_eq(&attrs[i].name, name) {
            if let Some(a) = &attrs[i].args {
                let q = find_quoted(a);
                if q.is_some() {
                    return q;
                }
            }
        }
        i += 1;
    }
    None
}

/// Whether a character beyond ASCII is a letter or a number.
pub uninterp spec fn unicode_alphanumeric(c: char) -> bool;

/// Whether a character is a letter or a digit of ASCII.
pub open spec fn ascii_alphanumeric(c: char) -> bool {
    ||| '0' <= c <= '9'
    ||| 'a' <= c <= 'z'
    ||| 'A' <= c <= 'Z'
}

/// Whether a character belongs to a word.
pub open spec fn in_word(c: char) -> bool {
    ||| c == '_'
    ||| if c <= '\x7f' {
        ascii_alphanumeric(c)
    } else {
        unicode_alphanumeric(c)
    }
}

/// Tells letters and numbers.
///
/// Calls `char::is_alphanumeric`: of the characters of ASCII it holds of letters and digits.
/// Of other characters its result is named, not described.
#[verifier::external_body]
fn is_alphanumeric(c: char) -> (yes: bool)
    ensures
        yes == if c <= '\x7f' {
            ascii_alphanumeric(c)
        } else {
            unicode_alphanumeric(c)
        },
{
    c.is_alphanumeric()
}

/// What follows the first occurrence of `word`.
pub open spec fn after_first(s: Seq<char>, word: Seq<char>) -> Option<Seq<char>>
    decreases s.len(),
{
    if has_prefix(s, word) {
        Some(s.skip(word.len() as int))
    } else if s.len() == 0 {
        None
    } else {
        after_first(s.skip(1), word)
    }
}

/// `s` without the blanks, equals signs and commas at its start.
pub open spec fn past_sign(s: Seq<char>) -> Seq<char>
    decreases s.len(),
{
    if s.len() > 0 && (s[0] == ' ' || s[0] == '=' || s[0] == ',' || s[0] == '\t') {
        past_sign(s.skip(1))
    } else {
        s
    }
}

/// The word at the start of `s`.
pub open spec fn first_word(s: Seq<char>) -> Seq<char>
    decreases s.len(),
{
    if s.len() > 0 && in_word(s[0]) {
        seq![s[0]] + first_word(s.skip(1))
    } else {
        seq![]
    }
}

/// The kind of the given name; an unknown one is normal.
pub open spec fn kind_named(word: Seq<char>) -> Kind {
    if word == "hinted"@ {
        Kind::Hinted
    } else if word == "config"@ {
        Kind::Config
    } else if word == "omitted"@ {
        Kind::Omitted
    } else {
        Kind::Normal
    }
}

/// The kind that the arguments of an attribute give, if they give one.
pub open spec fn kind_in(args: Seq<char>) -> Option<Kind> {
    match after_first(args, "kind"@) {
        Some(tail) => Some(kind_named(first_word(past_sign(tail)))),
        None => None,
    }
}

/// The kind that the attributes of a signal give; normal where they give none.
pub open spec fn kind_of(attrs: Seq<Attr>) -> Kind
    decreases attrs.len(),
{
    if attrs.len() == 0 {
        Kind::Normal
    } else {
        let here = match attrs[0].args {
            Some(a) => if attrs[0].name@ == "signal"@ {
                kind_in(a@)
            } else {
                None
            },
            None => None,
        };
        match here {
            Some(k) => k,
            None => kind_of(attrs.skip(1)),
        }
    }
}

/// Finds the kind that the arguments of an attribute give.
fn find_kind(args: &str) -> (k: Option<Kind>)
    ensures
        k == kind_in(args@),
{
    proof {
        reveal_strlit("kind");
    }
    let v = chars_of(args);
    let ghost all = args@;
    let mut i: usize = 0;
    assert(all.skip(0) =~= all);
    // Find `kind`.
    while !(v.len() - i >= 4 && v[i] == 'k' && v[i + 1] == 'i' && v[i + 2] == 'n' && v[i + 3]
        == 'd')
        invariant
            v@ == all,
            all == args@,
            i <= v.len(),
            "kind"@ == seq!['k', 'i', 'n', 'd'],
            after_first(all, "kind"@) == after_first(all.skip(i as int), "kind"@),
        decreases v.len() - i,
    {
        let ghost here = all.skip(i as int);
        proof {
            if has_prefix(here, "kind"@) {
                assert(here.take(4)[0] == v@[i as int]);
                assert(here.take(4)[1] == v@[i + 1]);
                assert(here.take(4)[2] == v@[i + 2]);
                assert(here.take(4)[3] == v@[i + 3]);
            }
            assert(!has_prefix(here, "kind"@));
        }
        if i == v.len() {
            return None;
        }
        assert(here.skip(1) =~= all.skip(i + 1));
        i += 1;
    }
    assert(all.skip(i as int).take(4) =~= seq!['k', 'i', 'n', 'd']);
    assert(all.skip(i as int).skip(4) =~= all.skip(i + 4));
    i += 4;
    let ghost tail = all.skip(i as int);
    // Pass over the sign.
    while i < v.len() && (v[i] == ' ' || v[i] == '=' || v[i] == ',' || v[i] == '\t')
        invariant
            v@ == all,
            i <= v.len(),
            past_sign(tail) == past_sign(all.skip(i as int)),
        decreases v.len() - i,
    {
        assert(all.skip(i as int).skip(1) =~= all.skip(i + 1));
        i += 1;
    }
    let ghost word = all.skip(i as int);
    // Take the word.
    let mut w: String = String::new();
    assert(w@ + first_word(word) =~= first_word(word));
    while i < v.len() && (v[i] == '_' || is_alphanumeric(v[i]))
        invariant
            v@ == all,
            all == args@,
            i <= v.len(),
            w@ + first_word(all.skip(i as int)) == first_word(word),
        decreases v.len() - i,
    {
        let ghost here = all.skip(i as int);
        let ghost before = w@;
        let one = args.substring_char(i, i + 1);
        w.append(one);
        assert(one@ =~= seq![here[0]]);
        assert(here.skip(1) =~= all.skip(i + 1));
        assert(w@ + first_word(here.skip(1)) =~= before + (seq![here[0]] + first_word(
            here.skip(1),
        )));
        i += 1;
    }
    assert(w@ + first_word(all.skip(i as int)) =~= w@);
    Some(
        if str_eq(&w, "hinted") {
            Kind::Hinted
        } else if str_eq(&w, "config") {
            Kind::Config
        } else if str_eq(&w, "omitted") {
            Kind::Omitted
        } else {
            Kind::Normal
        },
    )
}

/// Finds the kind that the attributes of a signal give.
pub fn parse_kind(field: &FieldInput) -> (k: Kind)
    ensures
        k == kind_of(field.attrs@),
{
    let attrs = &field.attrs;
    let mut i: usize = 0;
    assert(attrs@.skip(0) =~= attrs@);
    while i < attrs.len()
        invariant
            i <= attrs.len(),
            attrs@ == field.attrs@,
            kind_of(field.attrs@) == kind_of(attrs@.skip(i as int)),
        decreases attrs.len() - i,
    {
        assert(attrs@.skip(i as int)[0] == attrs@[i as int]);
        assert(attrs@.skip(i as int).skip(1) =~= attrs@.skip(i + 1));
        if str_eq(&attrs[i].name, "signal") {
            if let Some(a) = &attrs[i].args {
                if let Some(k) = find_kind(a) {
                    return k;
                }
            }
        }
        i += 1;
    }
    Kind::Normal
}

/// What is inside an `Arc`; any other type as it is.
pub open spec fn inside_arc(ty: FieldTy) -> Seq<char> {
    match (ty.last, ty.first_arg) {
        (Some(l), Some(a)) => if l@ == "Arc"@ {
            a@
        } else {
            ty.text@
        },
        _ => ty.text@,
    }
}

/// Takes a type out of an `Arc`.
pub fn strip_arc(ty: &FieldTy) -> (s: String)
    ensures
        s@ == inside_arc(*ty),
{
    match (&ty.last, &ty.first_arg) {
        (Some(l), Some(a)) => if str_eq(l, "Arc") {
            a.clone()
        } else {
            ty.text.clone()
        },
        _ => ty.text.clone(),
    }
}

/// How a field of a device is made.
#[derive(Debug)]
#[allow(inconsistent_fields)]
pub enum FieldInit {
    /// From the prefix: it is the name of the device.
    Name,
    /// As a signal.
    Signal {
        /// The field.
        id: String,
        /// The template of its process variable.
        template: String,
        /// Its kind.
        kind: Kind,
    },
    /// As a device of its own.
    Device {
        /// The field.
        id: String,
        /// The template of its prefix.
        template: String,
        /// Its type.
        ty: String,
    },
    /// By default.
    Default {
        /// The field.
        id: String,
    },
}

/// Whether `init` says how a field is made.
pub open spec fn made_so(f: FieldInput, init: FieldInit) -> bool {
    if f.id@ == "name"@ {
        init is Name
    } else {
        match (string_attr(f.attrs@, "signal"@), string_attr(f.attrs@, "device"@)) {
            (Some(t), _) => {
                &&& init matches FieldInit::Signal { id, template, kind }
                &&& id@ == f.id@
                &&& template@ == t
                &&& kind == kind_of(f.attrs@)
            },
            (None, Some(t)) => {
                &&& init matches FieldInit::Device { id, template, ty }
                &&& id@ == f.id@
                &&& template@ == t
                &&& ty@ == inside_arc(f.ty)
            },
            (None, None) => init matches FieldInit::Default { id } && id@ == f.id@,
        }
    }
}

/// Finds out how a field is made.
pub fn field_init(f: &FieldInput) -> (init: FieldInit)
    ensures
        made_so(*f, init),
{
    if str_eq(&f.id, "name") {
        return FieldInit::Name;
    }
    if let Some(template) = parse_string_attr(f, "signal") {
        return FieldInit::Signal { id: f.id.clone(), template, kind: parse_kind(f) };
    }
    if let Some(template) = parse_string_attr(f, "device") {
        return FieldInit::Device { id: f.id.clone(), template, ty: strip_arc(&f.ty) };
    }
    FieldInit::Default { id: f.id.clone() }
}

/// The item that the derivation is asked for.
#[derive(Debug)]
pub enum DeviceInput {
    /// A struct with named fields.
    Named(Vec<FieldInput>),
    /// Another struct.
    OtherStruct,
    /// Something else.
    NotStruct,
}

/// Whether one of the fields is the name of the device.
pub open spec fn has_name(fields: Seq<FieldInput>) -> bool {
    exists|i: int| 0 <= i < fields.len() && (#[trigger] fields[i]).id@ == "name"@
}

/// How a device is made, field by field, or the complaint.
pub fn derive_device(input: &DeviceInput) -> (r: Result<Vec<FieldInit>, &'static str>)
    ensures
        match *input {
            DeviceInput::Named(fields) => if has_name(fields@) {
                &&& r matches Ok(inits)
                &&& inits@.len() == fields@.len()
                &&& forall|i: int|
                    0 <= i < fields@.len() ==> made_so(fields@[i], #[trigger] inits@[i])
            } else {
                r matches Err(e) && e@
                    == "#[derive(Device)] requires a `name: String` field on the struct"@
            },
            DeviceInput::OtherStruct => r matches Err(e) && e@
                == "#[derive(Device)] only supports structs with named fields"@,
            DeviceInput::NotStruct => r matches Err(e) && e@
                == "#[derive(Device)] only supports structs"@,
        },
{
    let fields = match input {
        DeviceInput::Named(fields) => fields,
        DeviceInput::OtherStruct => {
            return Err("#[derive(Device)] only supports structs with named fields");
        },
        DeviceInput::NotStruct => {
            return Err("#[derive(Device)] only supports structs");
        },
    };
    let mut inits: Vec<FieldInit> = Vec::new();
    let mut has_name_field = false;
    let mut i: usize = 0;
    while i < fields.len()
        invariant
            i <= fields.len(),
            inits@.len() == i,
            forall|k: int| 0 <= k < i ==> made_so(fields@[k], #[trigger] inits@[k]),
            has_name_field == exists|k: int|
                0 <= k < i && (#[trigger] fields@[k]).id@ == "name"@,
        decreases fields.len() - i,
    {
        let init = field_init(&fields[i]);
        if matches!(init, FieldInit::Name) {
            has_name_field = true;
            assert(fields@[i as int].id@ == "name"@);
        }
        inits.push(init);
        i += 1;
        assert(has_name_field == exists|k: int|
            0 <= k < i && (#[trigger] fields@[k]).id@ == "name"@);
    }
    if !has_name_field {
        return Err("#[derive(Device)] requires a `name: String` field on the struct");
    }
    Ok(inits)
}

/// Whether a field is connected along with the device.
pub open spec fn connects(init: FieldInit) -> bool {
    init is Signal || init is Device
}

/// The fields that are connected along with the device, in order.
pub fn connected_fields(inits: &Vec<FieldInit>) -> (at: Vec<usize>)
    ensures
        at@ == connected_among(inits@),
{
    let mut at: Vec<usize> = Vec::new();
    let mut i: usize = 0;
    assert(inits@.take(0) =~= seq![]);
    while i < inits.len()
        invariant
            i <= inits.len(),
            at@ == connected_among(inits@.take(i as int)),
        decreases inits.len() - i,
    {
        assert(inits@.take(i + 1).drop_last() =~= inits@.take(i as int));
        assert(inits@.take(i + 1).last() == inits@[i as int]);
        match &inits[i] {
            FieldInit::Signal { .. } => {
                at.push(i);
            },
            FieldInit::Device { .. } => {
                at.push(i);
            },
            _ => {},
        }
        i += 1;
    }
    assert(inits@.take(inits@.len() as int) =~= inits@);
    at
}

/// The places of those that are connected.
pub open spec fn connected_among(inits: Seq<FieldInit>) -> Seq<usize>
    decreases inits.len(),
{
    if inits.len() == 0 {
        seq![]
    } else if connects(inits.last()) {
        connected_among(inits.drop_last()).push((inits.len() - 1) as usize)
    } else {
        connected_among(inits.drop_last())
    }
}

/// How a method takes the device.
#[derive(Copy, Clone, Debug, PartialEq, Eq, Structural)]
pub enum Receiver {
    /// As `&self`.
    Shared,
    /// As `&mut self`.
    Exclusive,
    /// By value.
    Value,
    /// Not at all.
    Missing,
}

/// What a method returns.
#[derive(Debug)]
pub enum Output {
    /// Nothing.
    Unit,
    /// A type, given by the last name of its path if it is a path.
    Type(Option<String>),
}

/// An item of an implementation.
#[derive(Debug)]
pub enum ImplItem {
    /// A method.
    Method {
        /// The name.
        name: String,
        /// Whether it is to be exposed.
        exposed: bool,
        /// How it takes the device.
        receiver: Receiver,
        /// The types of its other arguments.
        args: Vec<String>,
        /// Whether it is asynchronous.
        is_async: bool,
        /// What it returns.
        output: Output,
    },
    /// Another item.
    Other,
}

/// How the value of a method is handed on.
#[derive(Copy, Clone, Debug, PartialEq, Eq, Structural)]
pub enum Returned {
    /// As nothing.
    Nothing,
    /// As the value or the error of a result.
    OfResult,
    /// As it is.
    Value,
}

/// A method that is exposed.
#[derive(Debug)]
pub struct ExposedMethod {
    /// The name.
    pub name: String,
    /// The types of its arguments.
    pub args: Vec<String>,
    /// Whether it has to be waited for.
    pub is_async: bool,
    /// How its value is handed on.
    pub returned: Returned,
}

/// Whether a type is a result by its name.
pub fn is_result_type(last: &Option<String>) -> (yes: bool)
    ensures
        yes == (last matches Some(l) && l@ == "Result"@),
{
    match last {
        Some(l) => str_eq(l, "Result"),
        None => false,
    }
}

/// How the value of a method is handed on.
pub open spec fn returned_by(o: Output) -> Returned {
    match o {
        Output::Unit => Returned::Nothing,
        Output::Type(Some(l)) => if l@ == "Result"@ {
            Returned::OfResult
        } else {
            Returned::Value
        },
        Output::Type(None) => Returned::Value,
    }
}

/// Whether an item is to be exposed.
pub open spec fn is_exposed(it: ImplItem) -> bool {
    it matches ImplItem::Method { exposed, .. } && exposed
}

/// Whether `m` is how an item is exposed.
pub open spec fn exposed_so(it: ImplItem, m: ExposedMethod) -> bool {
    &&& it matches ImplItem::Method { name, args, is_async, output, .. }
    &&& m.name@ == name@
    &&& m.args.deep_view() == args.deep_view()
    &&& m.is_async == is_async
    &&& m.returned == returned_by(output)
}

/// The places of the items that are to be exposed.
pub open spec fn exposed_among(items: Seq<ImplItem>) -> Seq<int>
    decreases items.len(),
{
    if items.len() == 0 {
        seq![]
    } else if is_exposed(items.last()) {
        exposed_among(items.drop_last()).push(items.len() - 1)
    } else {
        exposed_among(items.drop_last())
    }
}

/// Whether every item that is to be exposed takes the device as `&self`.
pub open spec fn all_shared(items: Seq<ImplItem>) -> bool {
    forall|i: int|
        0 <= i < items.len() && is_exposed(#[trigger] items[i]) ==> items[i]->receiver
            == Receiver::Shared
}

/// The places of exposed items are places of items.
proof fn lemma_exposed_within(items: Seq<ImplItem>)
    ensures
        forall|k: int|
            0 <= k < exposed_among(items).len() ==> 0 <= #[trigger] exposed_among(items)[k]
                < items.len(),
    decreases items.len(),
{
    if items.len() > 0 {
        let before = exposed_among(items.drop_last());
        lemma_exposed_within(items.drop_last());
        assert forall|k: int| 0 <= k < exposed_among(items).len() implies 0 <= #[trigger]
            exposed_among(items)[k] < items.len() by {
            if k < before.len() {
                assert(exposed_among(items)[k] == before[k]);
            }
        }
    }
}

/// How the methods of an implementation are exposed, or the complaint. An implementation with
/// type parameters cannot be exposed.
pub fn lua_methods(generic: bool, items: &Vec<ImplItem>) -> (r: Result<
    Vec<ExposedMethod>,
    &'static str,
>)
    ensures
        if generic {
            r matches Err(e) && e@
                == "#[lua_methods] does not support generic impl blocks; concrete `impl Type` only. Wrap generic devices in a concrete newtype, or expose individual instances."@
        } else if !all_shared(items@) {
            r matches Err(e) && e@ == "#[lua_method] requires `&self` (no &mut, no Self by value)"@
        } else {
            &&& r matches Ok(ms)
            &&& ms@.len() == exposed_among(items@).len()
            &&& forall|k: int|
                0 <= k < ms@.len() ==> exposed_so(
                    items@[exposed_among(items@)[k]],
                    #[trigger] ms@[k],
                )
        },
{
    if generic {
        return Err(
            "#[lua_methods] does not support generic impl blocks; concrete `impl Type` only. Wrap generic devices in a concrete newtype, or expose individual instances.",
        );
    }
    let mut out: Vec<ExposedMethod> = Vec::new();
    let mut i: usize = 0;
    assert(items@.take(0) =~= seq![]);
    while i < items.len()
        invariant
            i <= items.len(),
            !generic,
            out@.len() == exposed_among(items@.take(i as int)).len(),
            forall|k: int|
                0 <= k < out@.len() ==> exposed_so(
                    items@[exposed_among(items@.take(i as int))[k]],
                    #[trigger] out@[k],
                ),
            forall|k: int|
                0 <= k < i && is_exposed(#[trigger] items@[k]) ==> items@[k]->receiver
                    == Receiver::Shared,
        decreases items.len() - i,
    {
        let ghost seen = items@.take(i as int);
        let ghost next = items@.take(i + 1);
        proof {
            assert(next.drop_last() =~= seen);
            assert(next.last() == items@[i as int]);
            lemma_exposed_within(seen);
        }
        match &items[i] {
            ImplItem::Method { name, exposed, receiver, args, is_async, output } => {
                if *exposed {
                    match receiver {
                        Receiver::Shared => {},
                        _ => {
                            assert(is_exposed(items@[i as int]));
                            return Err(
                                "#[lua_method] requires `&self` (no &mut, no Self by value)",
                            );
                        },
                    }
                    let returned = match output {
                        Output::Unit => Returned::Nothing,
                        Output::Type(last) => if is_result_type(last) {
                            Returned::OfResult
                        } else {
                            Returned::Value
                        },
                    };
                    let ghost before = out@;
                    out.push(
                        ExposedMethod {
                            name: name.clone(),
                            args: crate::documents::copy_strings(args),
                            is_async: *is_async,
                            returned,
                        },
                    );
                    assert(exposed_so(items@[i as int], out@.last()));
                    assert forall|k: int| 0 <= k < out@.len() implies exposed_so(
                        items@[exposed_among(next)[k]],
                        #[trigger] out@[k],
                    ) by {
                        if k < before.len() {
                            assert(out@[k] == before[k]);
                            assert(exposed_among(next)[k] == exposed_among(seen)[k]);
                        }
                    }
                }
            },
            ImplItem::Other => {},
        }
        i += 1;
    }
    assert(items@.take(items@.len() as int) =~= items@);
    Ok(out)
}

/// What a caller is told who gives a method the wrong number of arguments.
pub open spec fn arity_complaint(name: Seq<char>, arity: u64, got: u64) -> Seq<char> {
    "lua_method '"@ + name + "': expected "@ + decimal(arity as nat) + " args, got "@ + decimal(
        got as nat,
    )
}

/// Checks the number of arguments of a call.
pub fn check_arity(name: &str, arity: u64, got: u64) -> (r: Result<(), String>)
    ensures
        if got == arity {
            r is Ok
        } else {
            r matches Err(e) && e@ == arity_complaint(name@, arity, got)
        },
{
    if got == arity {
        Ok(())
    } else {
        Err(
            join2(
                &join3(&join3("lua_method '", name, "': expected "), &dec_u64(arity), " args, got "),
                &dec_u64(got),
            ),
        )
    }
}

/// What a caller is told whose argument number `i` cannot be read.
pub fn arg_complaint(name: &str, i: u64, e: &str) -> (s: String)
    ensures
        s@ == "lua_method '"@ + name@ + "': arg #"@ + decimal(i as nat) + "usize: "@ + e@,
{
    join2(&join3(&join3("lua_method '", name, "': arg #"), &dec_u64(i), "usize: "), e)
}

/// What a caller is told whose device is of another type.
pub fn type_complaint(name: &str) -> (s: String)
    ensures
        s@ == "lua_method '"@ + name@ + "': downcast failed (wrong concrete type)"@,
{
    join3("lua_method '", name, "': downcast failed (wrong concrete type)")
}

/// Whether the first two double quotes of `s` stand at `i` and at `j`.
pub open spec fn first_quotes(s: Seq<char>, i: int, j: int) -> bool {
    &&& 0 <= i < j < s.len()
    &&& s[i] == '"' && s[j] == '"'
    &&& forall|k: int| 0 <= k < j && k != i ==> s[k] != '"'
}

/// Whether an attribute is of the given name and its arguments hold `t` between their first two
/// double quotes.
pub open spec fn gives_text(a: Attr, name: Seq<char>, t: Seq<char>) -> bool {
    &&& a.name@ == name
    &&& a.args matches Some(s)
    &&& exists|i: int, j: int| #[trigger] first_quotes(s@, i, j) && t == s@.subrange(i + 1, j)
}

/// What stands between the first two double quotes.
proof fn lemma_quoted(s: Seq<char>)
    ensures
        match quoted(s) {
            Some(t) => exists|i: int, j: int| #[trigger]
                first_quotes(s, i, j) && t == s.subrange(i + 1, j),
            None => forall|i: int, j: int| !#[trigger] first_quotes(s, i, j),
        },
{
    lemma_find_char(s, '"');
    let i = find_char(s, '"');
    if let Some((head, rest)) = split_at_char(s, '"') {
        lemma_find_char(rest, '"');
        let j = i + 1 + find_char(rest, '"');
        if let Some((t, tail)) = split_at_char(rest, '"') {
            assert forall|k: int| 0 <= k < j && k != i implies s[k] != '"' by {
                if k > i {
                    assert(rest[k - i - 1] == s[k]);
                }
            }
            assert(rest[j - i - 1] == s[j]);
            assert(first_quotes(s, i, j));
            assert(t =~= s.subrange(i + 1, j));
        } else {
            assert forall|a: int, b: int| !#[trigger] first_quotes(s, a, b) by {
                if first_quotes(s, a, b) {
                    if a > i {
                        assert(s[i] != '"');
                    }
                    assert(a == i);
                    assert(rest[b - i - 1] == s[b]);
                }
            }
        }
    }
}

/// Which attribute the text comes from.
proof fn lemma_string_attr(attrs: Seq<Attr>, name: Seq<char>) -> (at: int)
    ensures
        match string_attr(attrs, name) {
            Some(t) => 0 <= at < attrs.len() && gives_text(attrs[at], name, t),
            None => at == attrs.len(),
        },
        forall|k: int, u: Seq<char>|
            0 <= k < at ==> !#[trigger] gives_text(attrs[k], name, u),
    decreases attrs.len(),
{
    if attrs.len() == 0 {
        0
    } else {
        if let Some(a) = attrs[0].args {
            lemma_quoted(a@);
        }
        let here = match attrs[0].args {
            Some(a) => if attrs[0].name@ == name {
                quoted(a@)
            } else {
                None
            },
            None => None,
        };
        match here {
            Some(t) => {
                assert(gives_text(attrs[0], name, t));
                0
            },
            None => {
                let rest = attrs.skip(1);
                let at = lemma_string_attr(rest, name);
                assert forall|k: int, u: Seq<char>| 0 <= k < at + 1 implies !#[trigger] gives_text(
                    attrs[k],
                    name,
                    u,
                ) by {
                    if k > 0 {
                        assert(!gives_text(rest[k - 1], name, u));
                        assert(rest[k - 1] == attrs[k]);
                    }
                }
                if at < rest.len() {
                    assert(rest[at] == attrs[at + 1]);
                }
                at + 1
            },
        }
    }
}

/// Whether `t` is the text of the first attribute of the given name that has one.
pub open spec fn first_text(attrs: Seq<Attr>, name: Seq<char>, t: Seq<char>) -> bool {
    exists|i: int|
        0 <= i < attrs.len() && gives_text(#[trigger] attrs[i], name, t) && no_text(
            attrs.take(i),
            name,
        )
}

/// Whether no attribute of the given name has text in double quotes.
pub open spec fn no_text(attrs: Seq<Attr>, name: Seq<char>) -> bool {
    forall|i: int, u: Seq<char>|
        0 <= i < attrs.len() ==> !#[trigger] gives_text(attrs[i], name, u)
}

/// Which text the attributes of a name give.
proof fn lemma_first_text(attrs: Seq<Attr>, name: Seq<char>)
    ensures
        match string_attr(attrs, name) {
            Some(t) => first_text(attrs, name, t),
            None => no_text(attrs, name),
        },
{
    let at = lemma_string_attr(attrs, name);
    if at < attrs.len() {
        assert forall|i: int, u: Seq<char>| 0 <= i < at implies !#[trigger] gives_text(
            attrs.take(at)[i],
            name,
            u,
        ) by {
            assert(!gives_text(attrs[i], name, u));
        }
        assert(no_text(attrs.take(at), name));
        assert(gives_text(attrs[at], name, string_attr(attrs, name)->Some_0));
    }
}

/// The text that is found for a name stands between the first two double quotes of an attribute of
/// that name, and no attribute before it has such text; where nothing is found, none has.
pub proof fn law_first_quoted_text_is_found(field: &FieldInput, name: &str, t: Option<String>)
    requires
        call_ensures(parse_string_attr, (field, name), t),
    ensures
        match t {
            Some(t) => first_text(field.attrs@, name@, t@),
            None => no_text(field.attrs@, name@),
        },
{
    lemma_first_text(field.attrs@, name@);
}

/// A field is made as its attributes say: the field `name` holds the name; a field with a signal
/// template is a signal from that template, whether or not it has a device template too; one with
/// a device template alone is a device of what its type holds; any other is made by default. In
/// each case it is made under its own name.
pub proof fn law_field_is_made_by_its_attributes(f: &FieldInput, init: FieldInit)
    requires
        call_ensures(field_init, (f,), init),
    ensures
        init is Name <==> f.id@ == "name"@,
        match init {
            FieldInit::Name => true,
            FieldInit::Signal { id, template, kind } => id@ == f.id@ && first_text(
                f.attrs@,
                "signal"@,
                template@,
            ),
            FieldInit::Device { id, template, ty } => {
                &&& id@ == f.id@
                &&& no_text(f.attrs@, "signal"@)
                &&& first_text(f.attrs@, "device"@, template@)
                &&& match (f.ty.last, f.ty.first_arg) {
                    (Some(l), Some(inner)) => (l@ == "Arc"@ ==> ty@ == inner@) && (l@ != "Arc"@
                        ==> ty@ == f.ty.text@),
                    _ => ty@ == f.ty.text@,
                }
            },
            FieldInit::Default { id } => id@ == f.id@ && no_text(f.attrs@, "signal"@) && no_text(
                f.attrs@,
                "device"@,
            ),
        },
{
    lemma_first_text(f.attrs@, "signal"@);
    lemma_first_text(f.attrs@, "device"@);
}

/// The kind of a signal is the word that follows the first `kind` of an attribute `signal`, past
/// blanks, equals signs and commas; a word that names no kind means the normal one.
pub proof fn law_kind_is_the_word_that_follows(
    field: &FieldInput,
    i: int,
    head: Seq<char>,
    signs: Seq<char>,
    word: Seq<char>,
    tail: Seq<char>,
    k: Kind,
)
    requires
        call_ensures(parse_kind, (field,), k),
        0 <= i < field.attrs@.len(),
        field.attrs@[i].name@ == "signal"@,
        field.attrs@[i].args matches Some(a) && a@ == head + "kind"@ + signs + word + tail,
        forall|p: int| #![trigger head[p]] 0 <= p < head.len() ==> !"kind"@.is_prefix_of(
            (head + "kind"@ + signs + word + tail).skip(p),
        ),
        forall|p: int|
            0 <= p < signs.len() ==> (#[trigger] signs[p] == ' ' || signs[p] == '=' || signs[p]
                == ',' || signs[p] == '\t'),
        word.len() > 0,
        forall|p: int| 0 <= p < word.len() ==> in_word(#[trigger] word[p]),
        tail.len() > 0 ==> !in_word(tail[0]),
        forall|m: int|
            0 <= m < i && (#[trigger] field.attrs@[m]).name@ == "signal"@ ==> (
            field.attrs@[m].args matches Some(b) ==> forall|p: int|
                0 <= p <= b@.len() ==> !"kind"@.is_prefix_of(#[trigger] b@.skip(p))),
    ensures
        k is Hinted <==> word == "hinted"@,
        k is Config <==> word == "config"@,
        k is Omitted <==> word == "omitted"@,
        k is Normal <==> word != "hinted"@ && word != "config"@ && word != "omitted"@,
{
    reveal_strlit("hinted");
    reveal_strlit("config");
    reveal_strlit("omitted");
    assert("hinted"@[0] == 'h' && "config"@[0] == 'c' && "omitted"@[0] == 'o');
    reveal_strlit("kind");
    let args = head + "kind"@ + signs + word + tail;
    let after = signs + word + tail;
    assert forall|p: int| 0 <= p < head.len() implies !has_prefix(#[trigger] args.skip(p), "kind"@) by {
        let c = head[p];
        if has_prefix(args.skip(p), "kind"@) {
            assert("kind"@.is_prefix_of(args.skip(p)));
        }
    }
    assert(args.skip(head.len() as int).take(4) =~= "kind"@);
    assert(args.skip(head.len() as int).skip(4) =~= after);
    lemma_after_first(args, "kind"@, head.len() as int);
    lemma_past_sign(signs, word + tail);
    assert(signs + (word + tail) =~= after);
    lemma_first_word(word, tail);
    lemma_kind_of(field.attrs@, i);
}

/// What follows the first occurrence of a word.
proof fn lemma_after_first(s: Seq<char>, word: Seq<char>, at: int)
    requires
        0 <= at <= s.len(),
        has_prefix(s.skip(at), word),
        forall|p: int| 0 <= p < at ==> !has_prefix(#[trigger] s.skip(p), word),
    ensures
        after_first(s, word) == Some(s.skip(at).skip(word.len() as int)),
    decreases at,
{
    assert(s.skip(0) =~= s);
    if at > 0 {
        let rest = s.skip(1);
        assert(!has_prefix(s.skip(0), word));
        assert(rest.skip(at - 1) =~= s.skip(at));
        assert forall|p: int| 0 <= p < at - 1 implies !has_prefix(#[trigger] rest.skip(p), word) by {
            assert(rest.skip(p) =~= s.skip(p + 1));
        }
        lemma_after_first(rest, word, at - 1);
    }
}

/// A word that does not occur is followed by nothing.
proof fn lemma_nothing_after(s: Seq<char>, word: Seq<char>)
    requires
        forall|p: int| 0 <= p <= s.len() ==> !word.is_prefix_of(#[trigger] s.skip(p)),
    ensures
        after_first(s, word) is None,
    decreases s.len(),
{
    assert(s.skip(0) =~= s);
    assert(!word.is_prefix_of(s.skip(0)));
    if has_prefix(s, word) {
        assert(word.is_prefix_of(s));
    }
    if s.len() > 0 {
        let rest = s.skip(1);
        assert forall|p: int| 0 <= p <= rest.len() implies !word.is_prefix_of(
            #[trigger] rest.skip(p),
        ) by {
            assert(rest.skip(p) =~= s.skip(p + 1));
        }
        lemma_nothing_after(rest, word);
    }
}

/// Signs are passed over up to a word.
proof fn lemma_past_sign(signs: Seq<char>, rest: Seq<char>)
    requires
        forall|p: int|
            0 <= p < signs.len() ==> (#[trigger] signs[p] == ' ' || signs[p] == '=' || signs[p]
                == ',' || signs[p] == '\t'),
        rest.len() > 0 && in_word(rest[0]),
    ensures
        past_sign(signs + rest) == rest,
    decreases signs.len(),
{
    let all = signs + rest;
    if signs.len() == 0 {
        assert(all =~= rest);
        assert(!in_word(' ') && !in_word('=') && !in_word(',') && !in_word('\t'));
    } else {
        assert(all[0] == signs[0]);
        assert(all.skip(1) =~= signs.skip(1) + rest);
        lemma_past_sign(signs.skip(1), rest);
    }
}

/// A word ends where it ends.
proof fn lemma_first_word(word: Seq<char>, tail: Seq<char>)
    requires
        forall|p: int| 0 <= p < word.len() ==> in_word(#[trigger] word[p]),
        tail.len() > 0 ==> !in_word(tail[0]),
    ensures
        first_word(word + tail) == word,
    decreases word.len(),
{
    let all = word + tail;
    if word.len() == 0 {
        assert(all =~= tail);
    } else {
        assert(all[0] == word[0]);
        assert(all.skip(1) =~= word.skip(1) + tail);
        lemma_first_word(word.skip(1), tail);
        assert(seq![word[0]] + word.skip(1) =~= word);
    }
}

/// The attribute that gives the kind.
proof fn lemma_kind_of(attrs: Seq<Attr>, i: int)
    requires
        0 <= i < attrs.len(),
        attrs[i].name@ == "signal"@,
        attrs[i].args matches Some(a) && kind_in(a@) is Some,
        forall|m: int|
            0 <= m < i && (#[trigger] attrs[m]).name@ == "signal"@ ==> (
            attrs[m].args matches Some(b) ==> forall|p: int|
                0 <= p <= b@.len() ==> !"kind"@.is_prefix_of(#[trigger] b@.skip(p))),
    ensures
        Some(kind_of(attrs)) == kind_in(attrs[i].args->Some_0@),
    decreases attrs.len(),
{
    if i > 0 {
        let rest = attrs.skip(1);
        assert(rest[i - 1] == attrs[i]);
        if attrs[0].name@ == "signal"@ {
            if let Some(b) = attrs[0].args {
                lemma_nothing_after(b@, "kind"@);
            }
        }
        assert forall|m: int| 0 <= m < i - 1 && (#[trigger] rest[m]).name@ == "signal"@ implies (
        rest[m].args matches Some(b) ==> forall|p: int|
            0 <= p <= b@.len() ==> !"kind"@.is_prefix_of(#[trigger] b@.skip(p))) by {
            assert(rest[m] == attrs[m + 1]);
        }
        lemma_kind_of(rest, i - 1);
    }
}

/// A signal whose attributes speak of no kind is a normal one.
pub proof fn law_kind_is_normal_by_default(field: &FieldInput, k: Kind)
    requires
        call_ensures(parse_kind, (field,), k),
        forall|m: int|
            0 <= m < field.attrs@.len() && (#[trigger] field.attrs@[m]).name@ == "signal"@ ==> (
            field.attrs@[m].args matches Some(b) ==> forall|p: int|
                0 <= p <= b@.len() ==> !"kind"@.is_prefix_of(#[trigger] b@.skip(p))),
    ensures
        k is Normal,
{
    lemma_no_kind(field.attrs@);
}

/// Attributes that speak of no kind.
proof fn lemma_no_kind(attrs: Seq<Attr>)
    requires
        forall|m: int|
            0 <= m < attrs.len() && (#[trigger] attrs[m]).name@ == "signal"@ ==> (
            attrs[m].args matches Some(b) ==> forall|p: int|
                0 <= p <= b@.len() ==> !"kind"@.is_prefix_of(#[trigger] b@.skip(p))),
    ensures
        kind_of(attrs) is Normal,
    decreases attrs.len(),
{
    if attrs.len() > 0 {
        let rest = attrs.skip(1);
        if attrs[0].name@ == "signal"@ {
            if let Some(b) = attrs[0].args {
                lemma_nothing_after(b@, "kind"@);
            }
        }
        assert forall|m: int|
            0 <= m < rest.len() && (#[trigger] rest[m]).name@ == "signal"@ implies (
        rest[m].args matches Some(b) ==> forall|p: int|
            0 <= p <= b@.len() ==> !"kind"@.is_prefix_of(#[trigger] b@.skip(p))) by {
            assert(rest[m] == attrs[m + 1]);
        }
        lemma_no_kind(rest);
    }
}

/// The fields that are connected along with a device are its signals and its devices, every one of
/// them, in the order of the fields.
pub proof fn law_signals_and_devices_are_connected(inits: &Vec<FieldInit>, at: Vec<usize>, i: usize)
    requires
        call_ensures(connected_fields, (inits,), at),
        inits@.len() <= usize::MAX,
    ensures
        at@.contains(i) <==> i < inits@.len() && (inits@[i as int] is Signal || inits@[i as int]
            is Device),
        forall|a: int, b: int| 0 <= a < b < at@.len() ==> at@[a] < at@[b],
{
    lemma_connected(inits@, i);
}

/// Which places are connected.
proof fn lemma_connected(inits: Seq<FieldInit>, i: usize)
    requires
        inits.len() <= usize::MAX,
    ensures
        connected_among(inits).contains(i) <==> i < inits.len() && (inits[i as int] is Signal
            || inits[i as int] is Device),
        forall|a: int, b: int|
            0 <= a < b < connected_among(inits).len() ==> connected_among(inits)[a]
                < connected_among(inits)[b],
        forall|a: int|
            0 <= a < connected_among(inits).len() ==> (#[trigger] connected_among(inits)[a])
                < inits.len(),
    decreases inits.len(),
{
    if inits.len() > 0 {
        let rest = inits.drop_last();
        lemma_connected(rest, i);
        let before = connected_among(rest);
        let all = connected_among(inits);
        if connects(inits.last()) {
            let last = (inits.len() - 1) as usize;
            assert(all == before.push(last));
            assert(all.contains(i) <==> before.contains(i) || i == last) by {
                if all.contains(i) {
                    let k = choose|k: int| 0 <= k < all.len() && all[k] == i;
                    if k < before.len() {
                        assert(before[k] == i);
                    }
                }
                if before.contains(i) {
                    let k = choose|k: int| 0 <= k < before.len() && before[k] == i;
                    assert(all[k] == i);
                }
                assert(all[before.len() as int] == last);
            }
        }
        if i < rest.len() {
            assert(rest[i as int] == inits[i as int]);
        }
    }
}

/// Whether a method of the given name is marked.
pub open spec fn marked(items: Seq<ImplItem>, name: Seq<char>) -> bool {
    exists|j: int|
        0 <= j < items.len() && (match #[trigger] items[j] {
            ImplItem::Method { name: n, exposed, .. } => exposed && n@ == name,
            ImplItem::Other => false,
        })
}

/// Every method that is marked is exposed, in order and under its own name, with its arguments and
/// with how its value is handed on; none else is. Nothing is exposed of a generic implementation,
/// or where a marked method does not take the device as `&self`.
pub proof fn law_marked_methods_are_exposed(
    generic: bool,
    items: &Vec<ImplItem>,
    r: Result<Vec<ExposedMethod>, &'static str>,
    i: int,
)
    requires
        call_ensures(lua_methods, (generic, items), r),
        0 <= i < items@.len(),
    ensures
        generic ==> r is Err,
        match (items@[i], r) {
            (
                ImplItem::Method { name, exposed, receiver, args, is_async, output },
                Ok(ms),
            ) => exposed ==> receiver is Shared && exists|k: int|
                0 <= k < ms@.len() && (#[trigger] ms@[k]).name@ == name@ && ms@[k].args.deep_view()
                    == args.deep_view() && ms@[k].is_async == is_async && (ms@[k].returned
                    is Nothing <==> output is Unit) && (ms@[k].returned is OfResult <==> (
                output matches Output::Type(Some(l)) && l@ == "Result"@)),
            _ => true,
        },
        r matches Ok(ms) ==> ms@.len() <= items@.len() && forall|k: int|
            0 <= k < ms@.len() ==> marked(items@, (#[trigger] ms@[k]).name@),
{
    lemma_exposed(items@, i);
    lemma_exposed_within(items@);
    if let Ok(ms) = r {
        let at = exposed_among(items@);
        if is_exposed(items@[i]) {
            let k = choose|k: int| 0 <= k < at.len() && at[k] == i;
            assert(exposed_so(items@[at[k]], ms@[k]));
        }
        assert forall|k: int| 0 <= k < ms@.len() implies marked(
            items@,
            (#[trigger] ms@[k]).name@,
        ) by {
            assert(exposed_so(items@[at[k]], ms@[k]));
            lemma_exposed(items@, at[k]);
            assert(at.contains(at[k]));
            assert(is_exposed(items@[at[k]]));
        }
    }
}

/// Which places are exposed.
proof fn lemma_exposed(items: Seq<ImplItem>, i: int)
    ensures
        exposed_among(items).contains(i) <==> 0 <= i < items.len() && is_exposed(items[i]),
        exposed_among(items).len() <= items.len(),
        forall|a: int, b: int|
            0 <= a < b < exposed_among(items).len() ==> exposed_among(items)[a]
                < exposed_among(items)[b],
    decreases items.len(),
{
    if items.len() > 0 {
        let rest = items.drop_last();
        lemma_exposed(rest, i);
        lemma_exposed_within(rest);
        let before = exposed_among(rest);
        let all = exposed_among(items);
        if is_exposed(items.last()) {
            let last = items.len() - 1;
            assert(all == before.push(last));
            assert(all.contains(i) <==> before.contains(i) || i == last) by {
                if all.contains(i) {
                    let k = choose|k: int| 0 <= k < all.len() && all[k] == i;
                    if k < before.len() {
                        assert(before[k] == i);
                    }
                }
                if before.contains(i) {
                    let k = choose|k: int| 0 <= k < before.len() && before[k] == i;
                    assert(all[k] == i);
                }
                assert(all[before.len() as int] == last);
            }
        }
        if 0 <= i < rest.len() {
            assert(rest[i] == items[i]);
        }
    }
}

/// Exposed methods stand in the order of the implementation.
pub proof fn law_exposed_methods_keep_their_order(
    items: &Vec<ImplItem>,
    ms: Vec<ExposedMethod>,
    a: int,
    b: int,
)
    requires
        call_ensures(lua_methods, (false, items), Ok(ms)),
        0 <= a < b < ms@.len(),
    ensures
        exists|i: int, j: int|
            0 <= i < j < items@.len() && exposed_so(items@[i], ms@[a]) && exposed_so(
                items@[j],
                ms@[b],
            ),
{
    let at = exposed_among(items@);
    lemma_exposed(items@, 0);
    lemma_exposed_within(items@);
    assert(exposed_so(items@[at[a]], ms@[a]));
    assert(exposed_so(items@[at[b]], ms@[b]));
}

/// A call with the right number of arguments is let through, and no other.
pub proof fn law_arity_is_checked(name: &str, arity: u64, got: u64, r: Result<(), String>)
    requires
        call_ensures(check_arity, (name, arity, got), r),
    ensures
        r is Ok <==> got == arity,
{
}

/// A device is made field by field, in order, each as its own attributes say; only a struct with
/// named fields, one of them the name, can be made.
pub proof fn law_device_is_made_field_by_field(
    input: &DeviceInput,
    r: Result<Vec<FieldInit>, &'static str>,
    i: int,
)
    requires
        call_ensures(derive_device, (input,), r),
    ensures
        match *input {
            DeviceInput::Named(fields) => {
                &&& r is Ok <==> exists|k: int|
                    0 <= k < fields@.len() && (#[trigger] fields@[k]).id@ == "name"@
                &&& r matches Ok(inits) ==> inits@.len() == fields@.len() && (0 <= i < inits@.len()
                    ==> (match inits@[i] {
                    FieldInit::Name => fields@[i].id@ == "name"@,
                    FieldInit::Signal { id, template, .. } => id@ == fields@[i].id@ && first_text(
                        fields@[i].attrs@,
                        "signal"@,
                        template@,
                    ),
                    FieldInit::Device { id, template, .. } => id@ == fields@[i].id@ && first_text(
                        fields@[i].attrs@,
                        "device"@,
                        template@,
                    ),
                    FieldInit::Default { id } => id@ == fields@[i].id@,
                }))
            },
            _ => r is Err,
        },
{
    if let DeviceInput::Named(fields) = *input {
        if let Ok(inits) = r {
            if 0 <= i < inits@.len() {
                assert(made_so(fields@[i], inits@[i]));
                lemma_first_text(fields@[i].attrs@, "signal"@);
                lemma_first_text(fields@[i].attrs@, "device"@);
            }
        }
    }
}

} // verus!
