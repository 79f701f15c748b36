//! Devices that live in memory, for tests, demos and simulators.

use vstd::prelude::*;
use vstd::string::*;

use crate::device::{DynLocation, LocatableObj, MovableObj, NamedObj, ReadableObj};
use crate::documents::{plain_key, DataKey, DataKeyView, Dtype};
use crate::error::{CirrusError, Span};
use crate::kind::Kind;
use crate::reading::{ReadingValue, TypedReading};
use crate::signal::{
    handles, plain_reading, signal_hints, signal_read, signal_readings, with_callback, Held,
    SignalBackend, SignalConfig, ToJson,
};
use crate::status::{Status, StatusOutcome, SubToken};
use crate::strmap::StrMap;
use crate::text::{clone_opt, join2};
use crate::value::{Double, JsonView};

verus! {

/// A backend that keeps its value in memory.
#[derive(Debug)]
pub struct SoftSignalBackend<T> {
    value: T,
    setpoint: T,
    callbacks: Vec<(u64, u64)>,
    next_id: u64,
    units: Option<String>,
    dtype: Dtype,
    dtype_numpy: Option<String>,
}

/// What describes the value of a [`SoftSignalBackend`].
pub struct SoftDescription {
    /// Engineering units.
    pub units: Option<Seq<char>>,
    /// Broad JSON type.
    pub dtype: Dtype,
    /// Numpy dtype string.
    pub dtype_numpy: Option<Seq<char>>,
}

/// Tells the subscriptions of any other number.
pub open spec fn numbered_other(number: u64) -> spec_fn((u64, u64)) -> bool {
    |c: (u64, u64)| c.0 != number
}

impl<T> SoftSignalBackend<T> {
    /// Value, setpoint and subscriptions.
    pub closed spec fn contents(&self) -> Held<T> {
        Held {
            value: self.value,
            setpoint: self.setpoint,
            callbacks: self.callbacks@,
            next: self.next_id,
        }
    }

    /// What describes the value.
    pub closed spec fn description(&self) -> SoftDescription {
        SoftDescription {
            units: self.units.deep_view(),
            dtype: self.dtype,
            dtype_numpy: self.dtype_numpy.deep_view(),
        }
    }

    /// Every subscription has a number below that of the next one.
    pub open spec fn numbered(&self) -> bool {
        forall|i: int|
            0 <= i < self.contents().callbacks.len() ==> (#[trigger] self.contents().callbacks[i]).0
                < self.contents().next
    }

    /// Removes the subscription of the given number.
    pub fn unsubscribe(&mut self, number: u64)
        ensures
            final(self).contents() == (Held {
                callbacks: old(self).contents().callbacks.filter(numbered_other(number)),
                ..old(self).contents()
            }),
            final(self).description() == old(self).description(),
            old(self).numbered() ==> final(self).numbered(),
    {
        proof {
            if self.numbered() {
                lemma_filter_below(self.callbacks@, numbered_other(number), self.next_id);
            }
        }
        let mut kept: Vec<(u64, u64)> = Vec::new();
        let mut i: usize = 0;
        let ghost all = self.callbacks@;
        let ghost other = numbered_other(number);
        assert(all.take(0).filter(other) =~= seq![]) by {
            reveal(Seq::filter);
        }
        while i < self.callbacks.len()
            invariant
                *self == *old(self),
                i <= self.callbacks.len(),
                all == self.callbacks@,
                other == numbered_other(number),
                kept@ == all.take(i as int).filter(other),
            decreases self.callbacks.len() - i,
        {
            let c = self.callbacks[i];
            proof {
                crate::engine::dispatch::lemma_filter_next(all, i as int, other);
            }
            if c.0 != number {
                kept.push(c);
            }
            i += 1;
        }
        assert(all.take(all.len() as int) =~= all);
        self.callbacks = kept;
    }
}

impl<T: ToJson> SoftSignalBackend<T> {
    /// Builds a backend with an initial value and a type for descriptors.
    pub fn new(initial: T, dtype: Dtype) -> (b: Self)
        ensures
            b.contents() == (Held {
                value: initial,
                setpoint: initial,
                callbacks: seq![],
                next: 0u64,
            }),
            b.description() == (SoftDescription { units: None, dtype, dtype_numpy: None }),
            b.numbered(),
    {
        SoftSignalBackend {
            value: initial.copied(),
            setpoint: initial,
            callbacks: Vec::new(),
            next_id: 0,
            units: None,
            dtype,
            dtype_numpy: None,
        }
    }

    /// The same backend with engineering units, and without subscriptions.
    pub fn with_units(self, units: &str) -> (b: Self)
        ensures
            b.contents() == (Held { callbacks: seq![], next: 0u64, ..self.contents() }),
            b.description() == (SoftDescription { units: Some(units@), ..self.description() }),
            b.numbered(),
    {
        SoftSignalBackend {
            callbacks: Vec::new(),
            next_id: 0,
            units: Some(units.to_owned()),
            value: self.value,
            setpoint: self.setpoint,
            dtype: self.dtype,
            dtype_numpy: self.dtype_numpy,
        }
    }

    /// The same backend with a numpy type, and without subscriptions.
    pub fn with_dtype_numpy(self, np: &str) -> (b: Self)
        ensures
            b.contents() == (Held { callbacks: seq![], next: 0u64, ..self.contents() }),
            b.description() == (SoftDescription { dtype_numpy: Some(np@), ..self.description() }),
            b.numbered(),
    {
        SoftSignalBackend {
            callbacks: Vec::new(),
            next_id: 0,
            units: self.units,
            value: self.value,
            setpoint: self.setpoint,
            dtype: self.dtype,
            dtype_numpy: Some(np.to_owned()),
        }
    }

    /// The callbacks to call with a new value.
    fn to_call(&self) -> (fire: Vec<u64>)
        ensures
            fire@ == handles(self.contents().callbacks),
    {
        let mut fire: Vec<u64> = Vec::new();
        let mut i: usize = 0;
        while i < self.callbacks.len()
            invariant
                i <= self.callbacks.len(),
                fire@ == handles(self.callbacks@).take(i as int),
            decreases self.callbacks.len() - i,
        {
            fire.push(self.callbacks[i].1);
            i += 1;
            assert(fire@ =~= handles(self.callbacks@).take(i as int));
        }
        assert(handles(self.callbacks@).take(self.callbacks@.len() as int) =~= handles(
            self.callbacks@,
        ));
        fire
    }

    /// Pokes a new value without changing the setpoint. Names the callbacks to call with it.
    pub fn write_now(&mut self, v: T) -> (fire: Vec<u64>)
        ensures
            final(self).contents() == (Held { value: v, ..old(self).contents() }),
            final(self).description() == old(self).description(),
            fire@ == handles(old(self).contents().callbacks),
            old(self).numbered() ==> final(self).numbered(),
    {
        self.value = v;
        self.to_call()
    }
}

/// The key that describes the value of a backend in memory.
pub open spec fn soft_key(d: SoftDescription, source: Seq<char>) -> DataKeyView {
    DataKeyView {
        dtype_numpy: d.dtype_numpy,
        units: d.units,
        ..plain_key("soft://"@ + source, d.dtype, seq![])
    }
}

impl<T: ToJson> SignalBackend<T> for SoftSignalBackend<T> {
    open spec fn connects(
        before: Self,
        timeout: Span,
        after: Self,
        r: Result<(), CirrusError>,
    ) -> bool {
        r is Ok && after == before
    }

    open spec fn puts(
        before: Self,
        value: T,
        wait: bool,
        timeout: Option<Span>,
        after: Self,
        r: (Status, Vec<u64>),
    ) -> bool {
        &&& r.0@.outcome == Some(StatusOutcome::Success)
        &&& r.1@ == handles(before.contents().callbacks)
        &&& after.contents() == (Held { value, setpoint: value, ..before.contents() })
        &&& after.description() == before.description()
    }

    open spec fn describes(self, source: Seq<char>, r: Result<DataKey, CirrusError>) -> bool {
        r matches Ok(k) && k.deep_view() == soft_key(self.description(), source)
    }

    open spec fn reads(self, now: Double, r: Result<ReadingValue, CirrusError>) -> bool {
        r matches Ok(x) && x.deep_view() == plain_reading(self.contents().value.json(), now)
    }

    open spec fn gives(self, r: Result<T, CirrusError>) -> bool {
        r == Ok::<T, CirrusError>(self.contents().value)
    }

    open spec fn gives_setpoint(self, r: Result<T, CirrusError>) -> bool {
        r == Ok::<T, CirrusError>(self.contents().setpoint)
    }

    open spec fn can_watch(self) -> bool {
        self.contents().next < u64::MAX
    }

    open spec fn watches(before: Self, callback: Option<u64>, after: Self, token: SubToken) -> bool {
        &&& match callback {
            Some(cb) => {
                &&& token@ == Some(before.contents().next)
                &&& after.contents() == with_callback(before.contents(), cb)
            },
            None => token@ is None && after.contents() == before.contents(),
        }
        &&& after.description() == before.description()
        &&& before.numbered() ==> after.numbered()
    }

    open spec fn address(self, name: Seq<char>) -> Seq<char> {
        "soft://"@ + name
    }

    fn connect(&mut self, timeout: Span) -> (r: Result<(), CirrusError>) {
        Ok(())
    }

    fn put(&mut self, value: T, wait: bool, timeout: Option<Span>) -> (r: (Status, Vec<u64>)) {
        self.setpoint = value.copied();
        self.value = value;
        (Status::done(), self.to_call())
    }

    fn get_datakey(&self, source: &str) -> (r: Result<DataKey, CirrusError>) {
        Ok(
            DataKey {
                dtype_numpy: clone_opt(&self.dtype_numpy),
                units: clone_opt(&self.units),
                ..DataKey::plain(join2("soft://", source), self.dtype, Vec::new())
            },
        )
    }

    fn get_reading(&self, now: Double) -> (r: Result<ReadingValue, CirrusError>) {
        Ok(TypedReading::new(self.value.to_json(), now))
    }

    fn get_value(&self) -> (r: Result<T, CirrusError>) {
        Ok(self.value.copied())
    }

    fn get_setpoint(&self) -> (r: Result<T, CirrusError>) {
        Ok(self.setpoint.copied())
    }

    fn set_callback(&mut self, callback: Option<u64>) -> (token: SubToken) {
        match callback {
            None => SubToken::noop(),
            Some(cb) => {
                let id: u64 = self.next_id;
                self.next_id = id + 1;
                self.callbacks.push((id, cb));
                SubToken::new(id)
            },
        }
    }

    fn source(&self, name: &str) -> (s: String) {
        join2("soft://", name)
    }
}

/// What is put is what is read: after a put, the value, the setpoint and every reading are the
/// value that was put, and the descriptions stay as they were.
pub proof fn law_put_is_read<T: ToJson>(
    before: SoftSignalBackend<T>,
    value: T,
    wait: bool,
    timeout: Option<Span>,
    after: SoftSignalBackend<T>,
    r: (Status, Vec<u64>),
)
    requires
        SoftSignalBackend::puts(before, value, wait, timeout, after, r),
    ensures
        r.0@.outcome == Some(StatusOutcome::Success),
        forall|x: Result<T, CirrusError>| #[trigger]
            after.gives(x) ==> x == Ok::<T, CirrusError>(value),
        forall|x: Result<T, CirrusError>| #[trigger]
            after.gives_setpoint(x) ==> x == Ok::<T, CirrusError>(value),
        forall|now: Double, x: Result<ReadingValue, CirrusError>| #[trigger]
            after.reads(now, x) ==> x is Ok && x->Ok_0.deep_view() == plain_reading(
                value.json(),
                now,
            ),
        forall|source: Seq<char>, x: Result<DataKey, CirrusError>|
            after.describes(source, x) == #[trigger] before.describes(source, x),
        before.numbered() ==> after.numbered(),
{
}

/// A signal in memory reads, under its name and with the time of the call, the value that was
/// last put to it.
pub proof fn law_signal_reads_what_was_put<T: ToJson>(
    before: SoftSignalBackend<T>,
    value: T,
    wait: bool,
    after: SoftSignalBackend<T>,
    r: (Status, Vec<u64>),
    config: SignalConfig,
    now: Double,
    read: Result<StrMap<ReadingValue>, CirrusError>,
)
    requires
        SoftSignalBackend::puts(before, value, wait, None, after, r),
        signal_read(after, config, now, read),
    ensures
        read is Ok,
        read->Ok_0@ == signal_readings(config.name@, plain_reading(value.json(), now)),
{
}

/// A subscription that is released leaves the backend as it was before it was made, but for the
/// number that it used up.
pub proof fn law_subscription_is_undone(callbacks: Seq<(u64, u64)>, next: u64, callback: u64)
    requires
        forall|i: int| 0 <= i < callbacks.len() ==> (#[trigger] callbacks[i]).0 < next,
    ensures
        callbacks.push((next, callback)).filter(numbered_other(next)) =~= callbacks,
    decreases callbacks.len(),
{
    reveal(Seq::filter);
    let f = numbered_other(next);
    assert(callbacks.push((next, callback)).drop_last() =~= callbacks);
    lemma_filter_keeps_all(callbacks, f);
}

/// A filter keeps a bound on the numbers.
proof fn lemma_filter_below(s: Seq<(u64, u64)>, f: spec_fn((u64, u64)) -> bool, bound: u64)
    requires
        forall|i: int| 0 <= i < s.len() ==> (#[trigger] s[i]).0 < bound,
    ensures
        forall|i: int| 0 <= i < s.filter(f).len() ==> (#[trigger] s.filter(f)[i]).0 < bound,
    decreases s.len(),
{
    reveal(Seq::filter);
    if s.len() > 0 {
        let rest = s.drop_last().filter(f);
        lemma_filter_below(s.drop_last(), f, bound);
        assert forall|i: int| 0 <= i < s.filter(f).len() implies (#[trigger] s.filter(f)[i]).0
            < bound by {
            if i < rest.len() {
                assert(s.filter(f)[i] == rest[i]);
            } else {
                assert(s.filter(f)[i] == s[s.len() - 1]);
            }
        }
    }
}

/// A filter that every element passes keeps everything.
proof fn lemma_filter_keeps_all(s: Seq<(u64, u64)>, f: spec_fn((u64, u64)) -> bool)
    requires
        forall|i: int| 0 <= i < s.len() ==> f(#[trigger] s[i]),
    ensures
        s.filter(f) =~= s,
    decreases s.len(),
{
    reveal(Seq::filter);
    if s.len() > 0 {
        lemma_filter_keeps_all(s.drop_last(), f);
        assert(f(s[s.len() - 1]));
    }
}

/// A motor with one signal in memory.
#[derive(Debug)]
pub struct SoftMotor {
    name: String,
    backend: SoftSignalBackend<Double>,
    units: Option<String>,
    kind: Kind,
}

/// The keys that describe a [`SoftMotor`].
pub open spec fn motor_keys(name: Seq<char>) -> Map<Seq<char>, DataKeyView> {
    Map::<Seq<char>, DataKeyView>::empty().insert(
        name,
        DataKeyView {
            dtype_numpy: Some("<f8"@),
            units: Some("mm"@),
            ..plain_key("soft://"@ + name, Dtype::Number, seq![])
        },
    )
}

/// What sending a motor to a value gives.
pub open spec fn motor_sent(
    before: SoftMotor,
    after: SoftMotor,
    value: Double,
    r: (Status, Vec<u64>),
) -> bool {
    &&& r.0@.outcome == Some(StatusOutcome::Success)
    &&& r.1@ == handles(before.contents().callbacks)
    &&& after.contents() == (Held { value, setpoint: value, ..before.contents() })
    &&& after.named() == before.named()
}

impl SoftMotor {
    /// What the motor holds.
    pub closed spec fn contents(&self) -> Held<Double> {
        self.backend.contents()
    }

    /// A motor in millimetres is described so from the start.
    #[verifier::type_invariant]
    spec fn in_millimetres(self) -> bool {
        &&& self.backend.description() == (SoftDescription {
            units: Some("mm"@),
            dtype: Dtype::Number,
            dtype_numpy: Some("<f8"@),
        })
        &&& self.units.deep_view() == Some("mm"@)
        &&& self.kind == Kind::Hinted
    }

    /// Builds a motor. Without an initial position it stands at zero.
    pub fn new(name: &str, initial_pos: Option<Double>) -> (m: Self)
        ensures
            m.named() == name@,
            m.contents() == {
                let at = match initial_pos {
                    Some(p) => p,
                    None => Double { bits: 0 },
                };
                Held { value: at, setpoint: at, callbacks: seq![], next: 0u64 }
            },
    {
        let at = match initial_pos {
            Some(p) => p,
            None => Double { bits: 0 },
        };
        SoftMotor {
            name: name.to_owned(),
            backend: SoftSignalBackend::new(at, Dtype::Number).with_dtype_numpy("<f8").with_units(
                "mm",
            ),
            units: Some("mm".to_owned()),
            kind: Kind::Hinted,
        }
    }

    /// Reads the position into a map with one key, the name.
    pub fn read(&self, now: Double) -> (r: Result<StrMap<ReadingValue>, CirrusError>)
        ensures
            r is Ok,
            r->Ok_0@ == signal_readings(
                self.named(),
                plain_reading(self.contents().value.json(), now),
            ),
    {
        match self.backend.get_reading(now) {
            Ok(reading) => {
                let mut out: StrMap<ReadingValue> = StrMap::new();
                out.insert(self.name.clone(), reading);
                Ok(out)
            },
            Err(_) => Err(CirrusError::Backend("soft read".to_owned())),
        }
    }

    /// Describes the position in a map with one key, the name.
    pub fn describe(&self) -> (r: Result<StrMap<DataKey>, CirrusError>)
        ensures
            r is Ok,
            r->Ok_0@ == motor_keys(self.named()),
    {
        proof {
            use_type_invariant(self);
        }
        match self.backend.get_datakey(&self.name) {
            Ok(key) => {
                let mut key = key;
                key.units = clone_opt(&self.units);
                let mut out: StrMap<DataKey> = StrMap::new();
                out.insert(self.name.clone(), key);
                Ok(out)
            },
            Err(e) => Err(e),
        }
    }

    /// Moves to a value. The second part names the callbacks to call with it.
    pub fn set(&mut self, value: Double) -> (r: (Status, Vec<u64>))
        ensures
            motor_sent(*old(self), *final(self), value, r),
    {
        proof {
            use_type_invariant(&*self);
        }
        let mut backend = SoftSignalBackend::new(value, Dtype::Number).with_dtype_numpy(
            "<f8",
        ).with_units("mm");
        std::mem::swap(&mut backend, &mut self.backend);
        let r = backend.put(value, true, None);
        self.backend = backend;
        r
    }

    /// Where the motor was last sent, and where it is.
    pub fn locate(&self) -> (r: Result<DynLocation, CirrusError>)
        ensures
            r == Ok::<DynLocation, CirrusError>(
                DynLocation {
                    setpoint: self.contents().setpoint,
                    readback: self.contents().value,
                },
            ),
    {
        match (self.backend.get_setpoint(), self.backend.get_value()) {
            (Ok(setpoint), Ok(readback)) => Ok(DynLocation { setpoint, readback }),
            (Err(e), _) => Err(e),
            (_, Err(e)) => Err(e),
        }
    }
}

impl NamedObj for SoftMotor {
    closed spec fn named(&self) -> Seq<char> {
        self.name@
    }

    fn name(&self) -> (n: &str) {
        &self.name
    }
}

impl ReadableObj for SoftMotor {
    fn read_dyn(&self, now: Double) -> (r: Result<StrMap<ReadingValue>, CirrusError>)
        ensures
            r is Ok,
            r->Ok_0@ == signal_readings(
                self.named(),
                plain_reading(self.contents().value.json(), now),
            ),
    {
        self.read(now)
    }

    fn describe_dyn(&self) -> (r: Result<StrMap<DataKey>, CirrusError>)
        ensures
            r is Ok,
            r->Ok_0@ == motor_keys(self.named()),
    {
        self.describe()
    }

    fn hint_fields(&self) -> (fields: Option<Vec<String>>)
        ensures
            fields.deep_view() == signal_hints(Kind::Hinted, self.named()),
    {
        proof {
            use_type_invariant(self);
        }
        match self.kind {
            Kind::Hinted => {
                let mut fields: Vec<String> = Vec::new();
                fields.push(self.name.clone());
                assert(fields.deep_view() =~= seq![self.name@]);
                Some(fields)
            },
            _ => None,
        }
    }
}

impl MovableObj for SoftMotor {
    fn set_dyn(&mut self, value: Double) -> (r: (Status, Vec<u64>))
        ensures
            motor_sent(*old(self), *final(self), value, r),
    {
        self.set(value)
    }
}

impl LocatableObj for SoftMotor {
    fn locate_dyn(&self) -> (r: Result<DynLocation, CirrusError>)
        ensures
            r == Ok::<DynLocation, CirrusError>(
                DynLocation {
                    setpoint: self.contents().setpoint,
                    readback: self.contents().value,
                },
            ),
    {
        self.locate()
    }
}

/// A motor goes where it is sent: once it was sent to a value, it reads that value under its name and
/// with the time of the reading, and both its setpoint and its readback are that value. Everyone who
/// watches it is told, in the order of subscription.
pub proof fn law_motor_goes_where_it_is_sent(
    before: SoftMotor,
    after: SoftMotor,
    value: Double,
    r: (Status, Vec<u64>),
    now: Double,
    read: Result<StrMap<ReadingValue>, CirrusError>,
    place: Result<DynLocation, CirrusError>,
)
    requires
        motor_sent(before, after, value, r),
        call_ensures(SoftMotor::read, (&after, now), read),
        call_ensures(SoftMotor::locate, (&after,), place),
        value.finite(),
    ensures
        r.0@.outcome == Some(StatusOutcome::Success),
        r.1@.len() == before.contents().callbacks.len(),
        forall|i: int|
            0 <= i < r.1@.len() ==> #[trigger] r.1@[i] == before.contents().callbacks[i].1,
        read is Ok,
        forall|k: Seq<char>| #[trigger] read->Ok_0@.dom().contains(k) <==> k == before.named(),
        read->Ok_0@[before.named()].value == JsonView::Real(value),
        read->Ok_0@[before.named()].timestamp == now,
        place == Ok::<DynLocation, CirrusError>(DynLocation { setpoint: value, readback: value }),
{
}

/// A motor is described under its name as a number in millimetres that comes from memory.
pub proof fn law_motor_is_described(m: SoftMotor, r: Result<StrMap<DataKey>, CirrusError>)
    requires
        call_ensures(SoftMotor::describe, (&m,), r),
    ensures
        r is Ok,
        forall|k: Seq<char>| #[trigger] r->Ok_0@.dom().contains(k) <==> k == m.named(),
        r->Ok_0@[m.named()].dtype == Dtype::Number,
        r->Ok_0@[m.named()].units == Some("mm"@),
        r->Ok_0@[m.named()].dtype_numpy == Some("<f8"@),
        r->Ok_0@[m.named()].source == "soft://"@ + m.named(),
        r->Ok_0@[m.named()].shape.len() == 0,
{
}

/// A put tells everyone who watches, in the order of subscription; a watcher that joins is told of
/// the puts after that, and after its release of none.
pub proof fn law_watchers_are_told<T: ToJson>(
    b0: SoftSignalBackend<T>,
    callback: u64,
    b1: SoftSignalBackend<T>,
    token: SubToken,
    value: T,
    wait: bool,
    timeout: Option<Span>,
    b2: SoftSignalBackend<T>,
    r: (Status, Vec<u64>),
)
    requires
        b0.can_watch(),
        SoftSignalBackend::watches(b0, Some(callback), b1, token),
        SoftSignalBackend::puts(b1, value, wait, timeout, b2, r),
    ensures
        token@ == Some(b0.contents().next),
        b1.contents().value == b0.contents().value,
        b1.contents().setpoint == b0.contents().setpoint,
        r.1@.len() == b0.contents().callbacks.len() + 1,
        forall|i: int|
            0 <= i < b0.contents().callbacks.len() ==> #[trigger] r.1@[i]
                == b0.contents().callbacks[i].1,
        r.1@.last() == callback,
        b0.numbered() ==> b2.contents().callbacks.filter(numbered_other(token@->0))
            == b0.contents().callbacks,
{
    let old = b0.contents().callbacks;
    assert(b2.contents().callbacks == old.push((b0.contents().next, callback)));
    if b0.numbered() {
        law_subscription_is_undone(old, b0.contents().next, callback);
    }
}

} // verus!
