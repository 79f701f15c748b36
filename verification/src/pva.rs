//! PV Access: numbers and times out of structured values.

use vstd::prelude::*;
use vstd::string::*;

use crate::ca::{is_backend_error, Number, Single};
use crate::documents::{plain_key, DataKey, DataKeyView, Dtype};
use crate::error::CirrusError;
use crate::signal::BackendFromPv;
use crate::status::{Status, StatusError, StatusOutcome};
use crate::text::{join2, join3, str_eq};
use crate::value::Double;

verus! {

/// A scalar.
#[derive(Clone, Copy, Debug, PartialEq, Eq, Structural)]
pub enum ScalarValue {
    /// A truth value.
    Boolean(bool),
    /// 8 signed bits.
    Byte(i8),
    /// 16 signed bits.
    Short(i16),
    /// 32 signed bits.
    Int(i32),
    /// 64 signed bits.
    Long(i64),
    /// 8 unsigned bits.
    UByte(u8),
    /// 16 unsigned bits.
    UShort(u16),
    /// 32 unsigned bits.
    UInt(u32),
    /// 64 unsigned bits.
    ULong(u64),
    /// A single-precision number.
    Float(Single),
    /// A double-precision number.
    Double(Double),
    /// Text, whatever it says.
    Text,
}

/// A structured value.
#[derive(Debug)]
pub enum PvField {
    /// A scalar.
    Scalar(ScalarValue),
    /// A structure, its fields in order.
    Structure(Vec<(String, PvField)>),
    /// Any other value.
    Other,
}

/// What a [`PvField`] stands for.
pub enum PvFieldView {
    /// A scalar.
    Scalar(ScalarValue),
    /// A structure, its fields in order.
    Structure(Seq<(Seq<char>, PvFieldView)>),
    /// Any other value.
    Other,
}

impl DeepView for PvField {
    type V = PvFieldView;

    open spec fn deep_view(&self) -> PvFieldView {
        field_view(*self)
    }
}

/// What `f` stands for.
pub open spec fn field_view(f: PvField) -> PvFieldView
    decreases f,
{
    match f {
        PvField::Scalar(s) => PvFieldView::Scalar(s),
        PvField::Structure(fields) => PvFieldView::Structure(
            Seq::new(
                fields@.len(),
                |i: int|
                    if 0 <= i < fields@.len() {
                        (fields@[i].0@, field_view(fields@[i].1))
                    } else {
                        (seq![], PvFieldView::Other)
                    },
            ),
        ),
        PvField::Other => PvFieldView::Other,
    }
}

/// The first field of the given name.
pub open spec fn field_named(fields: Seq<(Seq<char>, PvFieldView)>, name: Seq<char>) -> Option<
    PvFieldView,
>
    decreases fields.len(),
{
    if fields.len() == 0 {
        None
    } else if fields[0].0 == name {
        Some(fields[0].1)
    } else {
        field_named(fields.skip(1), name)
    }
}

/// The number of a scalar, if it is one.
pub open spec fn scalar_number(s: ScalarValue) -> Option<Number> {
    match s {
        ScalarValue::Double(d) => Some(Number::Double(d)),
        ScalarValue::Float(f) => Some(Number::Float(f)),
        ScalarValue::Int(i) => Some(Number::Integer(i as i64)),
        ScalarValue::Long(l) => Some(Number::Integer(l)),
        ScalarValue::Short(s) => Some(Number::Integer(s as i64)),
        ScalarValue::Byte(b) => Some(Number::Integer(b as i64)),
        ScalarValue::UByte(b) => Some(Number::Integer(b as i64)),
        ScalarValue::UShort(s) => Some(Number::Integer(s as i64)),
        ScalarValue::UInt(u) => Some(Number::Integer(u as i64)),
        ScalarValue::ULong(u) => Some(Number::Unsigned(u)),
        _ => None,
    }
}

/// The number of a value: that of a scalar, or that of the field `value` of a structure.
pub open spec fn field_number(f: PvFieldView) -> Option<Number>
    decreases f,
{
    match f {
        PvFieldView::Scalar(s) => scalar_number(s),
        PvFieldView::Structure(fields) => number_among(fields),
        PvFieldView::Other => None,
    }
}

/// The number of the first field `value`.
pub open spec fn number_among(fields: Seq<(Seq<char>, PvFieldView)>) -> Option<Number>
    decreases fields,
{
    if fields.len() == 0 {
        None
    } else if fields[0].0 == "value"@ {
        field_number(fields[0].1)
    } else {
        number_among(fields.skip(1))
    }
}

/// A time as a server gives it.
#[derive(Clone, Copy, Debug, PartialEq, Eq, Structural)]
pub struct ServerTime {
    /// Seconds past the epoch.
    pub secs: Number,
    /// Nanoseconds beyond.
    pub nanos: i64,
}

/// The seconds of a time stamp.
pub open spec fn stamp_secs(fields: Seq<(Seq<char>, PvFieldView)>) -> Option<Number> {
    match field_named(fields, "secondsPastEpoch"@) {
        Some(PvFieldView::Scalar(ScalarValue::Long(l))) => Some(Number::Integer(l)),
        Some(PvFieldView::Scalar(ScalarValue::ULong(u))) => Some(Number::Unsigned(u)),
        _ => None,
    }
}

/// The nanoseconds of a time stamp.
pub open spec fn stamp_nanos(fields: Seq<(Seq<char>, PvFieldView)>) -> Option<i64> {
    match field_named(fields, "nanoseconds"@) {
        Some(PvFieldView::Scalar(ScalarValue::Int(i))) => Some(i as i64),
        Some(PvFieldView::Scalar(ScalarValue::UInt(u))) => Some(u as i64),
        _ => None,
    }
}

/// The time that a value carries in its field `timeStamp`, if that gives both the seconds and
/// the nanoseconds.
pub open spec fn field_time(f: PvFieldView) -> Option<ServerTime> {
    match f {
        PvFieldView::Structure(fields) => match field_named(fields, "timeStamp"@) {
            Some(PvFieldView::Structure(t)) => match (stamp_secs(t), stamp_nanos(t)) {
                (Some(secs), Some(nanos)) => Some(ServerTime { secs, nanos }),
                _ => None,
            },
            _ => None,
        },
        _ => None,
    }
}

/// The fields of a structure by their views.
pub open spec fn fields_view(fields: Seq<(String, PvField)>) -> Seq<(Seq<char>, PvFieldView)> {
    Seq::new(fields.len(), |i: int| (fields[i].0@, field_view(fields[i].1)))
}

/// Finds the first field of the given name.
fn find_field<'a>(fields: &'a Vec<(String, PvField)>, name: &str) -> (f: Option<&'a PvField>)
    ensures
        match f {
            Some(f) => field_named(fields_view(fields@), name@) == Some(f.deep_view()),
            None => field_named(fields_view(fields@), name@) is None,
        },
{
    let ghost all = fields_view(fields@);
    assert(all.skip(0) =~= all);
    let mut i: usize = 0;
    while i < fields.len()
        invariant
            i <= fields.len(),
            all == fields_view(fields@),
            field_named(all, name@) == field_named(all.skip(i as int), name@),
        decreases fields.len() - i,
    {
        assert(all.skip(i as int)[0] == (fields@[i as int].0@, field_view(fields@[i as int].1)));
        assert(all.skip(i as int).skip(1) =~= all.skip(i + 1));
        if str_eq(&fields[i].0, name) {
            return Some(&fields[i].1);
        }
        i += 1;
    }
    None
}

/// Reads the number of a scalar.
fn number_of(s: &ScalarValue) -> (n: Option<Number>)
    ensures
        n == scalar_number(*s),
{
    match s {
        ScalarValue::Double(d) => Some(Number::Double(*d)),
        ScalarValue::Float(f) => Some(Number::Float(*f)),
        ScalarValue::Int(i) => Some(Number::Integer(*i as i64)),
        ScalarValue::Long(l) => Some(Number::Integer(*l)),
        ScalarValue::Short(s) => Some(Number::Integer(*s as i64)),
        ScalarValue::Byte(b) => Some(Number::Integer(*b as i64)),
        ScalarValue::UByte(b) => Some(Number::Integer(*b as i64)),
        ScalarValue::UShort(s) => Some(Number::Integer(*s as i64)),
        ScalarValue::UInt(u) => Some(Number::Integer(*u as i64)),
        ScalarValue::ULong(u) => Some(Number::Unsigned(*u)),
        _ => None,
    }
}

/// Reads the number of a value: that of a scalar, or that of the field `value` of a structure.
pub fn pv_field_to_f64(p: &PvField) -> (n: Option<Number>)
    ensures
        n == field_number(p.deep_view()),
    decreases *p,
{
    match p {
        PvField::Scalar(s) => number_of(s),
        PvField::Structure(fields) => {
            let ghost all = fields_view(fields@);
            assert(p.deep_view() == PvFieldView::Structure(all)) by {
                assert(field_view(*p)->Structure_0 =~= all);
            }
            assert(all.skip(0) =~= all);
            let mut i: usize = 0;
            while i < fields.len()
                invariant
                    i <= fields.len(),
                    *p == PvField::Structure(*fields),
                    all == fields_view(fields@),
                    p.deep_view() == PvFieldView::Structure(all),
                    field_number(p.deep_view()) == number_among(all.skip(i as int)),
                decreases fields.len() - i,
            {
                assert(all.skip(i as int)[0] == (
                    fields@[i as int].0@,
                    field_view(fields@[i as int].1),
                ));
                assert(all.skip(i as int).skip(1) =~= all.skip(i + 1));
                if str_eq(&fields[i].0, "value") {
                    proof {
                        assert(decreases_to!(*p => p->Structure_0));
                        assert(decreases_to!(p->Structure_0 => (p->Structure_0)@));
                        assert(decreases_to!(fields@ => fields@[i as int]));
                        assert(decreases_to!(fields@[i as int] => fields@[i as int].1));
                    }
                    return pv_field_to_f64(&fields[i].1);
                }
                i += 1;
            }
            None
        },
        PvField::Other => None,
    }
}

/// Reads the time that a value carries.
pub fn pv_field_to_ts(p: &PvField) -> (t: Option<ServerTime>)
    ensures
        t == field_time(p.deep_view()),
{
    let fields = match p {
        PvField::Structure(fields) => fields,
        _ => {
            return None;
        },
    };
    assert(field_view(*p)->Structure_0 =~= fields_view(fields@));
    let stamp = match find_field(fields, "timeStamp") {
        Some(PvField::Structure(stamp)) => stamp,
        Some(f) => {
            assert(field_view(*f) !is Structure);
            return None;
        },
        None => {
            return None;
        },
    };
    assert(field_view(PvField::Structure(*stamp))->Structure_0 =~= fields_view(stamp@));
    let secs = match find_field(stamp, "secondsPastEpoch") {
        Some(PvField::Scalar(ScalarValue::Long(l))) => Number::Integer(*l),
        Some(PvField::Scalar(ScalarValue::ULong(u))) => Number::Unsigned(*u),
        _ => {
            return None;
        },
    };
    let nanos: i64 = match find_field(stamp, "nanoseconds") {
        Some(PvField::Scalar(ScalarValue::Int(i))) => *i as i64,
        Some(PvField::Scalar(ScalarValue::UInt(u))) => *u as i64,
        _ => {
            return None;
        },
    };
    Some(ServerTime { secs, nanos })
}

/// What a monitor hands on for one frame.
#[derive(Clone, Copy, Debug, PartialEq, Eq, Structural)]
pub struct MonitorFrame {
    /// The value.
    pub value: Number,
    /// The time that the server gave. Without one, the clock of the process stands in.
    pub time: Option<ServerTime>,
    /// Whether to warn that the clock of the process stands in.
    pub warn: bool,
}

/// The frame that a monitor hands on for a value.
pub open spec fn monitor_frame(f: PvFieldView, warned: bool) -> Option<MonitorFrame> {
    match field_number(f) {
        Some(value) => Some(
            MonitorFrame {
                value,
                time: field_time(f),
                warn: field_time(f) is None && !warned,
            },
        ),
        None => None,
    }
}

/// Whether a monitor hands on `f` for the value `v`; the flags say whether it had warned before
/// and has warned after.
pub open spec fn framed(
    before: bool,
    after: bool,
    v: PvFieldView,
    f: Option<MonitorFrame>,
) -> bool {
    &&& f == monitor_frame(v, before)
    &&& after == (before || (f matches Some(x) && x.warn))
}

/// A monitor of one process variable, which warns at most once.
#[derive(Debug)]
pub struct PvaMonitor {
    /// Whether it has warned.
    pub warned: bool,
}

impl PvaMonitor {
    /// A monitor that has not warned.
    pub fn new() -> (m: Self)
        ensures
            !m.warned,
    {
        PvaMonitor { warned: false }
    }

    /// Takes one value from the server. A value without a number is passed over.
    pub fn frame(&mut self, field: &PvField) -> (f: Option<MonitorFrame>)
        ensures
            framed(old(self).warned, final(self).warned, field.deep_view(), f),
    {
        match pv_field_to_f64(field) {
            Some(value) => {
                let time = pv_field_to_ts(field);
                let warn = time.is_none() && !self.warned;
                if warn {
                    self.warned = true;
                }
                Some(MonitorFrame { value, time, warn })
            },
            None => None,
        }
    }
}

/// Once a monitor has warned, it warns no more.
pub proof fn law_warns_once(f: PvFieldView)
    ensures
        monitor_frame(f, true) matches Some(x) ==> !x.warn,
{
}

/// What is known of one process variable.
#[derive(Debug)]
pub struct EpicsPvaBackend {
    /// The process variable.
    pub pv: String,
}

/// The key that describes a number behind PV Access.
pub open spec fn pva_key(source: Seq<char>) -> DataKeyView {
    DataKeyView {
        dtype_numpy: Some("<f8"@),
        ..plain_key("pva://"@ + source, Dtype::Number, seq![])
    }
}

impl EpicsPvaBackend {
    /// The backend of a process variable.
    pub fn new(pv: &str) -> (b: Self)
        ensures
            b.pv@ == pv@,
    {
        EpicsPvaBackend { pv: pv.to_owned() }
    }

    /// What a connection attempt gives, with the text of its error.
    pub fn connected(&self, outcome: Result<(), String>) -> (r: Result<(), CirrusError>)
        ensures
            match outcome {
                Ok(()) => r is Ok,
                Err(e) => is_backend_error(r, "pva connect "@ + self.pv@ + ": "@ + e@),
            },
    {
        match outcome {
            Ok(()) => Ok(()),
            Err(e) => Err(CirrusError::Backend(join3(&join2("pva connect ", &self.pv), ": ", &e))),
        }
    }

    /// The status of a put, given how the server took it.
    pub fn put_status(outcome: Result<(), String>) -> (s: Status)
        ensures
            match outcome {
                Ok(()) => s@.outcome == Some(StatusOutcome::Success),
                Err(e) => {
                    &&& s@.outcome matches Some(StatusOutcome::Failed(StatusError::Failed(m)))
                    &&& m@ == "pva put: "@ + e@
                },
            },
    {
        match outcome {
            Ok(()) => Status::done(),
            Err(e) => Status::fail(StatusError::Failed(join2("pva put: ", &e))),
        }
    }

    /// Describes the value.
    pub fn get_datakey(&self, source: &str) -> (key: DataKey)
        ensures
            key.deep_view() == pva_key(source@),
    {
        DataKey {
            dtype_numpy: Some("<f8".to_owned()),
            ..DataKey::plain(join2("pva://", source), Dtype::Number, Vec::new())
        }
    }

    /// Reads the number of a value. `shown` is how the value is shown in an error.
    pub fn number_value(f: &PvField, shown: &str) -> (r: Result<Number, CirrusError>)
        ensures
            match field_number(f.deep_view()) {
                Some(n) => r == Ok::<Number, CirrusError>(n),
                None => is_backend_error(r, "pva: not numeric: "@ + shown@),
            },
    {
        match pv_field_to_f64(f) {
            Some(n) => Ok(n),
            None => Err(CirrusError::Backend(join2("pva: not numeric: ", shown))),
        }
    }

    /// The address of the given name.
    pub fn source(&self, name: &str) -> (s: String)
        ensures
            s@ == "pva://"@ + name@,
    {
        join2("pva://", name)
    }
}

impl BackendFromPv for EpicsPvaBackend {
    open spec fn made_from(&self, pv: Seq<char>) -> bool {
        self.pv@ == pv
    }

    fn from_pv(pv: &str) -> (b: Self) {
        EpicsPvaBackend::new(pv)
    }
}

/// Whether `f` is the first field of the given name.
pub open spec fn is_first(
    fields: Seq<(Seq<char>, PvFieldView)>,
    name: Seq<char>,
    f: PvFieldView,
) -> bool {
    exists|i: int|
        0 <= i < fields.len() && #[trigger] fields[i] == (name, f) && forall|k: int|
            0 <= k < i ==> (#[trigger] fields[k]).0 != name
}

/// Finding a field gives the first of its name.
proof fn lemma_field_named(fields: Seq<(Seq<char>, PvFieldView)>, name: Seq<char>)
    ensures
        match field_named(fields, name) {
            Some(f) => is_first(fields, name, f),
            None => forall|i: int| 0 <= i < fields.len() ==> (#[trigger] fields[i]).0 != name,
        },
    decreases fields.len(),
{
    if fields.len() > 0 {
        if fields[0].0 == name {
            assert(fields[0] == (name, fields[0].1));
        } else {
            let rest = fields.skip(1);
            lemma_field_named(rest, name);
            match field_named(rest, name) {
                Some(f) => {
                    let i = choose|i: int|
                        0 <= i < rest.len() && #[trigger] rest[i] == (name, f) && forall|k: int|
                            0 <= k < i ==> (#[trigger] rest[k]).0 != name;
                    assert(fields[i + 1] == (name, f));
                    assert forall|k: int| 0 <= k < i + 1 implies (#[trigger] fields[k]).0 != name by {
                        if k > 0 {
                            assert(rest[k - 1] == fields[k]);
                        }
                    }
                },
                None => {
                    assert forall|i: int| 0 <= i < fields.len() implies (#[trigger] fields[i]).0
                        != name by {
                        if i > 0 {
                            assert(rest[i - 1] == fields[i]);
                        }
                    }
                },
            }
        }
    }
}

/// The number among fields is that of the first field `value`.
proof fn lemma_number_among(fields: Seq<(Seq<char>, PvFieldView)>)
    ensures
        number_among(fields) == match field_named(fields, "value"@) {
            Some(f) => field_number(f),
            None => None,
        },
    decreases fields.len(),
{
    if fields.len() > 0 && fields[0].0 != "value"@ {
        lemma_number_among(fields.skip(1));
    }
}

/// The number of a structure is the number of its first field `value`, however deep that is; a
/// structure without that field has none.
pub proof fn law_number_is_that_of_the_value(
    p: &PvField,
    inner: &PvField,
    n: Option<Number>,
    m: Option<Number>,
)
    requires
        call_ensures(pv_field_to_f64, (p,), n),
        call_ensures(pv_field_to_f64, (inner,), m),
    ensures
        match p.deep_view() {
            PvFieldView::Structure(fields) => {
                &&& is_first(fields, "value"@, inner.deep_view()) ==> n == m
                &&& (forall|i: int| 0 <= i < fields.len() ==> (#[trigger] fields[i]).0 != "value"@)
                    ==> n is None
            },
            PvFieldView::Other => n is None,
            PvFieldView::Scalar(_) => true,
        },
{
    if let PvFieldView::Structure(fields) = p.deep_view() {
        lemma_number_among(fields);
        lemma_field_named(fields, "value"@);
        if is_first(fields, "value"@, inner.deep_view()) {
            let f = inner.deep_view();
            let i = choose|i: int|
                0 <= i < fields.len() && #[trigger] fields[i] == ("value"@, f) && forall|k: int|
                    0 <= k < i ==> (#[trigger] fields[k]).0 != "value"@;
            lemma_first_is_one(fields, "value"@, f);
        }
    }
}

/// Only one field is the first of its name.
proof fn lemma_first_is_one(
    fields: Seq<(Seq<char>, PvFieldView)>,
    name: Seq<char>,
    f: PvFieldView,
)
    requires
        is_first(fields, name, f),
    ensures
        field_named(fields, name) == Some(f),
{
    lemma_field_named(fields, name);
    let i = choose|i: int|
        0 <= i < fields.len() && #[trigger] fields[i] == (name, f) && forall|k: int|
            0 <= k < i ==> (#[trigger] fields[k]).0 != name;
    assert(fields[i].0 == name);
    if let Some(g) = field_named(fields, name) {
        let j = choose|j: int|
            0 <= j < fields.len() && #[trigger] fields[j] == (name, g) && forall|k: int|
                0 <= k < j ==> (#[trigger] fields[k]).0 != name;
        assert(fields[j].0 == name);
        assert(i == j);
    }
}

/// A scalar number keeps its value, and truth values and text are no numbers.
pub proof fn law_scalar_keeps_its_value(p: &PvField, n: Option<Number>)
    requires
        call_ensures(pv_field_to_f64, (p,), n),
    ensures
        match p.deep_view() {
            PvFieldView::Scalar(ScalarValue::Double(d)) => n == Some(Number::Double(d)),
            PvFieldView::Scalar(ScalarValue::Float(f)) => n == Some(Number::Float(f)),
            PvFieldView::Scalar(ScalarValue::Byte(x)) => n matches Some(Number::Integer(i)) && i
                == x,
            PvFieldView::Scalar(ScalarValue::Short(x)) => n matches Some(Number::Integer(i)) && i
                == x,
            PvFieldView::Scalar(ScalarValue::Int(x)) => n matches Some(Number::Integer(i)) && i
                == x,
            PvFieldView::Scalar(ScalarValue::Long(x)) => n matches Some(Number::Integer(i)) && i
                == x,
            PvFieldView::Scalar(ScalarValue::UByte(x)) => n matches Some(Number::Integer(i)) && i
                == x,
            PvFieldView::Scalar(ScalarValue::UShort(x)) => n matches Some(Number::Integer(i)) && i
                == x,
            PvFieldView::Scalar(ScalarValue::UInt(x)) => n matches Some(Number::Integer(i)) && i
                == x,
            PvFieldView::Scalar(ScalarValue::ULong(x)) => n matches Some(Number::Unsigned(i)) && i
                == x,
            PvFieldView::Scalar(_) => n is None,
            _ => true,
        },
{
}

/// The time of a value is what its time stamp says: its seconds and its nanoseconds, neither
/// rounded nor exchanged; a value gives no time unless both are there.
pub proof fn law_time_is_that_of_the_stamp(
    p: &PvField,
    stamp: Seq<(Seq<char>, PvFieldView)>,
    secs: PvFieldView,
    nanos: PvFieldView,
    t: Option<ServerTime>,
)
    requires
        call_ensures(pv_field_to_ts, (p,), t),
        p.deep_view() matches PvFieldView::Structure(fields) && is_first(
            fields,
            "timeStamp"@,
            PvFieldView::Structure(stamp),
        ),
        is_first(stamp, "secondsPastEpoch"@, secs),
        is_first(stamp, "nanoseconds"@, nanos),
    ensures
        t matches Some(x) ==> (match secs {
            PvFieldView::Scalar(ScalarValue::Long(s)) => x.secs == Number::Integer(s),
            PvFieldView::Scalar(ScalarValue::ULong(s)) => x.secs == Number::Unsigned(s),
            _ => false,
        }) && (match nanos {
            PvFieldView::Scalar(ScalarValue::Int(n)) => x.nanos == n,
            PvFieldView::Scalar(ScalarValue::UInt(n)) => x.nanos == n,
            _ => false,
        }),
        (secs matches PvFieldView::Scalar(ScalarValue::Long(_)) || secs matches PvFieldView::Scalar(
            ScalarValue::ULong(_),
        )) && (nanos matches PvFieldView::Scalar(ScalarValue::Int(_))
            || nanos matches PvFieldView::Scalar(ScalarValue::UInt(_))) ==> t is Some,
{
    lemma_first_is_one(
        p.deep_view()->Structure_0,
        "timeStamp"@,
        PvFieldView::Structure(stamp),
    );
    lemma_first_is_one(stamp, "secondsPastEpoch"@, secs);
    lemma_first_is_one(stamp, "nanoseconds"@, nanos);
}

/// A monitor hands on every value that has a number, with that number and with the time of the
/// server where there is one. Of two values without a time it warns at the first only.
pub proof fn law_frames_hold_value_and_time(
    w0: bool,
    w1: bool,
    w2: bool,
    p: &PvField,
    q: &PvField,
    n: Option<Number>,
    t: Option<ServerTime>,
    f: Option<MonitorFrame>,
    g: Option<MonitorFrame>,
)
    requires
        framed(w0, w1, p.deep_view(), f),
        framed(w1, w2, q.deep_view(), g),
        call_ensures(pv_field_to_f64, (p,), n),
        call_ensures(pv_field_to_ts, (p,), t),
    ensures
        f is Some <==> n is Some,
        f matches Some(x) ==> Some(x.value) == n && x.time == t,
        f matches Some(x) ==> (x.warn <==> t is None && !w0),
        f matches Some(x) && x.warn ==> w1 && (g matches Some(y) ==> !y.warn),
        f is None ==> w1 == w0,
        w0 ==> w1,
{
}

/// A monitor takes values as it is said to, and starts without having warned.
pub proof fn law_monitor_takes_values(
    m: &mut PvaMonitor,
    p: &PvField,
    f: Option<MonitorFrame>,
    n: PvaMonitor,
)
    requires
        call_ensures(PvaMonitor::frame, (m, p), f),
        call_ensures(PvaMonitor::new, (), n),
    ensures
        framed(old(m).warned, final(m).warned, p.deep_view(), f),
        !n.warned,
{
}

} // verus!
