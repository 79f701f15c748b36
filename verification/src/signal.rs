//! Signals: one value behind a backend.

use vstd::prelude::*;
use vstd::string::*;

use crate::device::{NamedObj, ReadableObj};
use crate::documents::{DataKey, DataKeyView};
use crate::error::{CirrusError, Span};
use crate::kind::Kind;
use crate::reading::{ReadingValue, ReadingView};
use crate::status::{Status, SubToken};
use crate::strmap::StrMap;
use crate::text::has_prefix;
use crate::value::{double_json, Double, Json, JsonView};

verus! {

/// A value with a JSON form.
pub trait ToJson: Sized {
    /// The JSON form.
    spec fn json(&self) -> JsonView;

    /// The JSON form.
    fn to_json(&self) -> (j: Json)
        ensures
            j.deep_view() == self.json(),
    ;

    /// A copy of the value.
    fn copied(&self) -> (c: Self)
        ensures
            c == *self,
    ;
}

impl ToJson for Double {
    open spec fn json(&self) -> JsonView {
        double_json(*self)
    }

    fn to_json(&self) -> (j: Json) {
        self.into_json()
    }

    fn copied(&self) -> (c: Self) {
        *self
    }
}

impl ToJson for i64 {
    open spec fn json(&self) -> JsonView {
        JsonView::Integer(*self as int)
    }

    fn to_json(&self) -> (j: Json) {
        Json::Int(*self)
    }

    fn copied(&self) -> (c: Self) {
        *self
    }
}

impl ToJson for bool {
    open spec fn json(&self) -> JsonView {
        JsonView::Bool(*self)
    }

    fn to_json(&self) -> (j: Json) {
        Json::Bool(*self)
    }

    fn copied(&self) -> (c: Self) {
        *self
    }
}

impl ToJson for String {
    open spec fn json(&self) -> JsonView {
        JsonView::Str(self@)
    }

    fn to_json(&self) -> (j: Json) {
        Json::Str(self.clone())
    }

    fn copied(&self) -> (c: Self) {
        self.clone()
    }
}

/// A reading with no alarm.
pub open spec fn plain_reading(value: JsonView, now: Double) -> ReadingView {
    ReadingView { value, timestamp: now, alarm_severity: None, message: None }
}

/// What a backend holds: the value, and where it was last sent.
#[verifier::reject_recursive_types(T)]
pub struct Held<T> {
    /// The value.
    pub value: T,
    /// The value that was last put.
    pub setpoint: T,
    /// The callbacks to call with each new value, each under the number of its subscription.
    pub callbacks: Seq<(u64, u64)>,
    /// The number of the next subscription.
    pub next: u64,
}

/// The handles of the registered callbacks, in order of registration.
pub open spec fn handles(callbacks: Seq<(u64, u64)>) -> Seq<u64> {
    callbacks.map_values(|c: (u64, u64)| c.1)
}

/// One value that can be read, written and watched in place. A backend states for itself what
/// each of its operations may come to; nothing is promised of backends as such.
pub trait SignalBackend<T: ToJson>: Sized {
    /// Whether connecting `before` may give `r` and leave `after`.
    spec fn connects(before: Self, timeout: Span, after: Self, r: Result<(), CirrusError>) -> bool;

    /// Whether putting a value to `before` may give `r` and leave `after`.
    spec fn puts(
        before: Self,
        value: T,
        wait: bool,
        timeout: Option<Span>,
        after: Self,
        r: (Status, Vec<u64>),
    ) -> bool;

    /// Whether the backend may describe a signal of the given source by `r`.
    spec fn describes(self, source: Seq<char>, r: Result<DataKey, CirrusError>) -> bool;

    /// Whether the backend may read `r` now.
    spec fn reads(self, now: Double, r: Result<ReadingValue, CirrusError>) -> bool;

    /// Whether the value may be given as `r`.
    spec fn gives(self, r: Result<T, CirrusError>) -> bool;

    /// Whether the value that was last put may be given as `r`.
    spec fn gives_setpoint(self, r: Result<T, CirrusError>) -> bool;

    /// Whether one more subscription can be numbered.
    spec fn can_watch(self) -> bool;

    /// Whether a subscription to `before` may give `token` and leave `after`.
    spec fn watches(before: Self, callback: Option<u64>, after: Self, token: SubToken) -> bool;

    /// The address of the given name.
    spec fn address(self, name: Seq<char>) -> Seq<char>;

    /// Connects.
    fn connect(&mut self, timeout: Span) -> (r: Result<(), CirrusError>)
        ensures
            Self::connects(*old(self), timeout, *final(self), r),
    ;

    /// Puts a value. The second part names the callbacks to call with it.
    fn put(&mut self, value: T, wait: bool, timeout: Option<Span>) -> (r: (Status, Vec<u64>))
        ensures
            Self::puts(*old(self), value, wait, timeout, *final(self), r),
    ;

    /// Describes the value, for a signal of the given source.
    fn get_datakey(&self, source: &str) -> (r: Result<DataKey, CirrusError>)
        ensures
            self.describes(source@, r),
    ;

    /// Reads the value as JSON.
    fn get_reading(&self, now: Double) -> (r: Result<ReadingValue, CirrusError>)
        ensures
            self.reads(now, r),
    ;

    /// Reads the value.
    fn get_value(&self) -> (r: Result<T, CirrusError>)
        ensures
            self.gives(r),
    ;

    /// Reads the value that was last put.
    fn get_setpoint(&self) -> (r: Result<T, CirrusError>)
        ensures
            self.gives_setpoint(r),
    ;

    /// Watches the value with the callback of the given handle. The token names the
    /// subscription, if there is one.
    fn set_callback(&mut self, callback: Option<u64>) -> (token: SubToken)
        requires
            callback is Some ==> old(self).can_watch(),
        ensures
            Self::watches(*old(self), callback, *final(self), token),
    ;

    /// The address of the given name.
    fn source(&self, name: &str) -> (s: String)
        ensures
            s@ == self.address(name@),
    ;
}

/// Every backend that can be made from just the name of a process variable.
pub trait BackendFromPv: Sized {
    /// What it means to stand for the process variable `pv`.
    spec fn made_from(&self, pv: Seq<char>) -> bool;

    /// Makes a backend from the name of a process variable.
    fn from_pv(pv: &str) -> (b: Self)
        ensures
            b.made_from(pv@),
    ;
}

/// The default backend for a process variable.
pub fn default_backend<B: BackendFromPv>(pv: &str) -> (b: B)
    ensures
        b.made_from(pv@),
{
    B::from_pv(pv)
}

/// `s` with every occurrence of `pattern`, from the left and without overlap, replaced.
pub open spec fn replaced(s: Seq<char>, pattern: Seq<char>, by: Seq<char>) -> Seq<char>
    decreases s.len(),
{
    if s.len() == 0 || pattern.len() == 0 {
        s
    } else if has_prefix(s, pattern) {
        by + replaced(s.skip(pattern.len() as int), pattern, by)
    } else {
        seq![s[0]] + replaced(s.skip(1), pattern, by)
    }
}

/// Puts `prefix` in the place of every `{prefix}` of `template`.
pub fn expand(template: &str, prefix: &str) -> (s: String)
    ensures
        s@ == replaced(template@, "{prefix}"@, prefix@),
{
    proof {
        reveal_strlit("{prefix}");
    }
    let n: usize = template.unicode_len();
    let mut s: String = String::new();
    let mut i: usize = 0;
    assert(template@.skip(0) =~= template@);
    assert(s@ + replaced(template@, "{prefix}"@, prefix@) =~= replaced(
        template@,
        "{prefix}"@,
        prefix@,
    ));
    while i < n
        invariant
            n == template@.len(),
            i <= n,
            "{prefix}"@.len() == 8,
            s@ + replaced(template@.skip(i as int), "{prefix}"@, prefix@) == replaced(
                template@,
                "{prefix}"@,
                prefix@,
            ),
        decreases n - i,
    {
        let ghost rest = template@.skip(i as int);
        let here = template.substring_char(i, n);
        assert(here@ =~= rest);
        if crate::text::starts_with(here, "{prefix}") {
            let ghost before = s@;
            s.append(prefix);
            assert(template@.skip(i + 8) =~= rest.skip(8));
            assert(s@ + replaced(rest.skip(8), "{prefix}"@, prefix@) =~= before + (prefix@
                + replaced(rest.skip(8), "{prefix}"@, prefix@)));
            i += 8;
        } else {
            let ghost before = s@;
            let one = template.substring_char(i, i + 1);
            s.append(one);
            assert(one@ =~= seq![rest[0]]);
            assert(template@.skip(i + 1) =~= rest.skip(1));
            assert(s@ + replaced(rest.skip(1), "{prefix}"@, prefix@) =~= before + (seq![rest[0]]
                + replaced(rest.skip(1), "{prefix}"@, prefix@)));
            i += 1;
        }
    }
    assert(template@.skip(n as int) =~= seq![]);
    assert(s@ + replaced(template@.skip(n as int), "{prefix}"@, prefix@) =~= s@);
    s
}

/// Whether all of several connection attempts succeeded: the first failure in order, if any.
pub open spec fn all_connected(results: Seq<Result<(), CirrusError>>) -> Result<(), CirrusError>
    decreases results.len(),
{
    if results.len() == 0 {
        Ok(())
    } else if results[0] is Err {
        results[0]
    } else {
        all_connected(results.skip(1))
    }
}

/// Joins the results of several connection attempts: the first failure in order, if any.
pub fn try_join_all_connects(results: Vec<Result<(), CirrusError>>) -> (r: Result<(), CirrusError>)
    ensures
        r == all_connected(results@),
{
    let mut left = results;
    let ghost all = left@;
    assert(all.skip(0) =~= all);
    let ghost mut done: int = 0;
    while left.len() > 0
        invariant
            all == results@,
            0 <= done <= all.len(),
            left@ == all.skip(done),
            all_connected(all) == all_connected(left@),
        decreases left.len(),
    {
        let first = left.remove(0);
        proof {
            assert(all.skip(done)[0] == first);
            assert(left@ =~= all.skip(done).skip(1));
            assert(left@ =~= all.skip(done + 1));
            done = done + 1;
        }
        match first {
            Ok(()) => {},
            Err(e) => {
                return Err(e);
            },
        }
    }
    Ok(())
}

/// Configuration of one signal.
#[derive(Debug)]
pub struct SignalConfig {
    /// Source name, such as that of a process variable.
    pub source: String,
    /// Kind.
    pub kind: Kind,
    /// Name that appears in the keys of readings.
    pub name: String,
}

impl Default for SignalConfig {
    fn default() -> (c: Self)
        ensures
            c.source@ == Seq::<char>::empty(),
            c.kind == Kind::Normal,
            c.name@ == Seq::<char>::empty(),
    {
        SignalConfig { source: String::new(), kind: Kind::default(), name: String::new() }
    }
}

/// The keys that describe a signal, given the key that its backend gives: where that leaves the
/// source blank, the backend's address stands in.
pub open spec fn signal_keys(name: Seq<char>, key: DataKeyView, address: Seq<char>) -> Map<
    Seq<char>,
    DataKeyView,
> {
    Map::<Seq<char>, DataKeyView>::empty().insert(
        name,
        DataKeyView {
            source: if key.source.len() == 0 {
                address
            } else {
                key.source
            },
            ..key
        },
    )
}

/// The fields worth showing of a signal: its own, where it is hinted.
pub open spec fn signal_hints(kind: Kind, name: Seq<char>) -> Option<Seq<Seq<char>>> {
    if kind == Kind::Hinted {
        Some(seq![name])
    } else {
        None
    }
}

/// The readings of a signal.
pub open spec fn signal_readings(name: Seq<char>, reading: ReadingView) -> Map<
    Seq<char>,
    ReadingView,
> {
    Map::<Seq<char>, ReadingView>::empty().insert(name, reading)
}

impl SignalConfig {
    /// The keys that describe the signal, given the key and the address that its backend gives.
    pub fn keys(&self, key: DataKey, address: &str) -> (keys: StrMap<DataKey>)
        ensures
            keys@ == signal_keys(self.name@, key.deep_view(), address@),
    {
        let mut key = key;
        if key.source.as_str().unicode_len() == 0 {
            key.source = address.to_owned();
        }
        let mut keys: StrMap<DataKey> = StrMap::new();
        keys.insert(self.name.clone(), key);
        keys
    }

    /// The readings of the signal, given what its backend reads.
    pub fn readings(&self, reading: ReadingValue) -> (r: StrMap<ReadingValue>)
        ensures
            r@ == signal_readings(self.name@, reading.deep_view()),
    {
        let mut r: StrMap<ReadingValue> = StrMap::new();
        r.insert(self.name.clone(), reading);
        r
    }

    /// The fields worth showing: the signal's own, where it is hinted.
    pub fn hints(&self) -> (fields: Option<Vec<String>>)
        ensures
            fields.deep_view() == signal_hints(self.kind, self.name@),
    {
        match self.kind {
            Kind::Hinted => {
                let mut fields: Vec<String> = Vec::new();
                fields.push(self.name.clone());
                assert(fields.deep_view() =~= seq![self.name@]);
                Some(fields)
            },
            _ => None,
        }
    }
}

/// A signal: name, backend and kind.
pub struct Signal<T: ToJson, B: SignalBackend<T>> {
    backend: B,
    config: SignalConfig,
    marker: std::marker::PhantomData<T>,
}

impl<T: ToJson, B: SignalBackend<T>> Signal<T, B> {
    /// The backend.
    pub closed spec fn behind(&self) -> B {
        self.backend
    }

    /// The configuration.
    pub closed spec fn settings(&self) -> SignalConfig {
        self.config
    }

    /// Builds a signal.
    pub fn new(backend: B, config: SignalConfig) -> (s: Self)
        ensures
            s.behind() == backend,
            s.settings() == config,
    {
        Signal { backend, config, marker: std::marker::PhantomData }
    }

    /// Connects the backend.
    pub fn connect(&mut self, timeout: Span) -> (r: Result<(), CirrusError>)
        ensures
            B::connects(old(self).behind(), timeout, final(self).behind(), r),
            final(self).settings() == old(self).settings(),
    {
        self.backend.connect(timeout)
    }

    /// Reads the value.
    pub fn get(&self) -> (r: Result<T, CirrusError>)
        ensures
            self.behind().gives(r),
    {
        self.backend.get_value()
    }

    /// Reads the value that was last put.
    pub fn get_setpoint(&self) -> (r: Result<T, CirrusError>)
        ensures
            self.behind().gives_setpoint(r),
    {
        self.backend.get_setpoint()
    }

    /// Puts a value. The second part names the callbacks to call with it.
    pub fn put(&mut self, value: T) -> (r: (Status, Vec<u64>))
        ensures
            B::puts(old(self).behind(), value, true, None, final(self).behind(), r),
            final(self).settings() == old(self).settings(),
    {
        self.backend.put(value, true, None)
    }

    /// Puts a value without waiting for completion.
    pub fn put_no_wait(&mut self, value: T) -> (r: (Status, Vec<u64>))
        ensures
            B::puts(old(self).behind(), value, false, None, final(self).behind(), r),
            final(self).settings() == old(self).settings(),
    {
        self.backend.put(value, false, None)
    }

    /// Reads the signal into a map with one key, its name.
    pub fn read(&self, now: Double) -> (r: Result<StrMap<ReadingValue>, CirrusError>)
        ensures
            signal_read(self.behind(), self.settings(), now, r),
    {
        let got = self.backend.get_reading(now);
        let ghost reading = got;
        assert(self.behind().reads(now, reading));
        match got {
            Ok(reading) => Ok(self.config.readings(reading)),
            Err(e) => Err(e),
        }
    }

    /// Describes the signal in a map with one key, its name.
    pub fn describe(&self) -> (r: Result<StrMap<DataKey>, CirrusError>)
        ensures
            signal_described(self.behind(), self.settings(), r),
    {
        let got = self.backend.get_datakey(&self.config.source);
        let ghost key = got;
        assert(self.behind().describes(self.settings().source@, key));
        match got {
            Ok(key) => {
                let address = self.backend.source(&self.config.source);
                Ok(self.config.keys(key, &address))
            },
            Err(e) => Err(e),
        }
    }

    /// Watches the value with the callback of the given handle.
    pub fn subscribe(&mut self, callback: u64) -> (token: SubToken)
        requires
            old(self).behind().can_watch(),
        ensures
            B::watches(old(self).behind(), Some(callback), final(self).behind(), token),
            final(self).settings() == old(self).settings(),
    {
        self.backend.set_callback(Some(callback))
    }

    /// The kind.
    pub fn kind(&self) -> (k: Kind)
        ensures
            k == self.settings().kind,
    {
        self.config.kind
    }
}

/// Whether a signal may be read as `r`: under its name, what the backend reads, or the error of
/// the backend.
pub open spec fn signal_read<T: ToJson, B: SignalBackend<T>>(
    b: B,
    config: SignalConfig,
    now: Double,
    r: Result<StrMap<ReadingValue>, CirrusError>,
) -> bool {
    exists|reading: Result<ReadingValue, CirrusError>|
        {
            &&& #[trigger] b.reads(now, reading)
            &&& match reading {
                Ok(x) => r matches Ok(m) && m@ == signal_readings(config.name@, x.deep_view()),
                Err(e) => r == Err::<StrMap<ReadingValue>, CirrusError>(e),
            }
        }
}

/// Whether a signal may be described as `r`: under its name, the key of the backend, or the
/// error of the backend.
pub open spec fn signal_described<T: ToJson, B: SignalBackend<T>>(
    b: B,
    config: SignalConfig,
    r: Result<StrMap<DataKey>, CirrusError>,
) -> bool {
    exists|key: Result<DataKey, CirrusError>|
        {
            &&& #[trigger] b.describes(config.source@, key)
            &&& match key {
                Ok(k) => r matches Ok(m) && m@ == signal_keys(
                    config.name@,
                    k.deep_view(),
                    b.address(config.source@),
                ),
                Err(e) => r == Err::<StrMap<DataKey>, CirrusError>(e),
            }
        }
}

/// What a backend holds after one more subscription.
pub open spec fn with_callback<T>(h: Held<T>, callback: u64) -> Held<T> {
    Held { callbacks: h.callbacks.push((h.next, callback)), next: (h.next + 1) as u64, ..h }
}

impl<T: ToJson, B: SignalBackend<T>> NamedObj for Signal<T, B> {
    open spec fn named(&self) -> Seq<char> {
        self.settings().name@
    }

    fn name(&self) -> (n: &str) {
        &self.config.name
    }
}

impl<T: ToJson, B: SignalBackend<T>> ReadableObj for Signal<T, B> {
    fn read_dyn(&self, now: Double) -> (r: Result<StrMap<ReadingValue>, CirrusError>)
        ensures
            signal_read(self.behind(), self.settings(), now, r),
    {
        self.read(now)
    }

    fn describe_dyn(&self) -> (r: Result<StrMap<DataKey>, CirrusError>)
        ensures
            signal_described(self.behind(), self.settings(), r),
    {
        self.describe()
    }

    fn hint_fields(&self) -> (fields: Option<Vec<String>>)
        ensures
            fields.deep_view() == signal_hints(self.settings().kind, self.settings().name@),
    {
        self.config.hints()
    }
}

/// A signal that is read gives one reading, under its own name, and it is the reading of its backend;
/// an error of the backend is passed on.
pub proof fn law_signal_reads_its_backend<T: ToJson, B: SignalBackend<T>>(
    b: B,
    config: SignalConfig,
    now: Double,
    r: Result<StrMap<ReadingValue>, CirrusError>,
)
    requires
        signal_read(b, config, now, r),
    ensures
        r matches Ok(m) ==> {
            &&& forall|k: Seq<char>| #[trigger] m@.dom().contains(k) <==> k == config.name@
            &&& exists|x: ReadingValue| #[trigger] b.reads(now, Ok(x)) && m@[config.name@]
                == x.deep_view()
        },
        r matches Err(e) ==> b.reads(now, Err(e)),
{
    let reading = choose|reading: Result<ReadingValue, CirrusError>|
        {
            &&& #[trigger] b.reads(now, reading)
            &&& match reading {
                Ok(x) => r matches Ok(m) && m@ == signal_readings(config.name@, x.deep_view()),
                Err(e) => r == Err::<StrMap<ReadingValue>, CirrusError>(e),
            }
        };
    if reading is Ok {
        assert(b.reads(now, Ok(reading->Ok_0)));
    }
}

/// A signal is described under its own name by the key of its backend; where that leaves the source
/// blank, the address of the signal stands in, and everything else stays as it is.
pub proof fn law_signal_is_described(
    config: SignalConfig,
    key: DataKey,
    address: &str,
    keys: StrMap<DataKey>,
)
    requires
        call_ensures(SignalConfig::keys, (&config, key, address), keys),
    ensures
        forall|k: Seq<char>| #[trigger] keys@.dom().contains(k) <==> k == config.name@,
        keys@[config.name@].source == if key.source@.len() == 0 {
            address@
        } else {
            key.source@
        },
        keys@[config.name@].dtype == key.dtype,
        keys@[config.name@].shape == key.deep_view().shape,
        keys@[config.name@].units == key.deep_view().units,
        keys@[config.name@].precision == key.precision,
{
}

/// A signal is worth showing exactly where it is hinted, and then under its own name.
pub proof fn law_hinted_signals_are_shown(config: SignalConfig, fields: Option<Vec<String>>)
    requires
        call_ensures(SignalConfig::hints, (&config,), fields),
    ensures
        fields is Some <==> config.kind == Kind::Hinted,
        fields matches Some(f) ==> f@.len() == 1 && f@[0]@ == config.name@,
{
    if fields is Some {
        assert(fields.deep_view()->0.len() == 1);
        assert(fields.deep_view()->0[0] == config.name@);
        assert(fields->0.deep_view()[0] == fields->0@[0]@);
    }
}

/// Several connection attempts succeed where each does; otherwise the first failure in order is what
/// they end in.
pub proof fn law_first_failed_connection_counts(results: Seq<Result<(), CirrusError>>)
    ensures
        all_connected(results) is Ok <==> forall|i: int|
            0 <= i < results.len() ==> (#[trigger] results[i]) is Ok,
        all_connected(results) is Err ==> exists|i: int|
            {
                &&& 0 <= i < results.len()
                &&& #[trigger] results[i] == all_connected(results)
                &&& forall|j: int| 0 <= j < i ==> (#[trigger] results[j]) is Ok
            },
    decreases results.len(),
{
    if results.len() > 0 {
        let rest = results.skip(1);
        law_first_failed_connection_counts(rest);
        if results[0] is Ok {
            if all_connected(rest) is Err {
                let i = choose|i: int|
                    {
                        &&& 0 <= i < rest.len()
                        &&& #[trigger] rest[i] == all_connected(rest)
                        &&& forall|j: int| 0 <= j < i ==> (#[trigger] rest[j]) is Ok
                    };
                assert(results[i + 1] == rest[i]);
                assert forall|j: int| 0 <= j < i + 1 implies (#[trigger] results[j]) is Ok by {
                    if j > 0 {
                        assert(rest[j - 1] == results[j]);
                    }
                }
            } else {
                assert forall|i: int| 0 <= i < results.len() implies (#[trigger] results[i]) is Ok by {
                    if i > 0 {
                        assert(rest[i - 1] == results[i]);
                    }
                }
            }
        }
    }
}

/// Expanding a template puts the prefix in place of the marker and keeps everything else: a template
/// that is a text, the marker and a text without the marker becomes the text, the prefix and the text.
pub proof fn law_template_is_expanded(pattern: Seq<char>, by: Seq<char>, tail: Seq<char>)
    requires
        pattern.len() > 0,
    ensures
        replaced(pattern + tail, pattern, by) == by + replaced(tail, pattern, by),
        tail.len() > 0 && !has_prefix(tail, pattern) ==> replaced(tail, pattern, by) == seq![tail[0]]
            + replaced(tail.skip(1), pattern, by),
        replaced(seq![], pattern, by) == Seq::<char>::empty(),
{
    let s = pattern + tail;
    assert(s.take(pattern.len() as int) =~= pattern);
    assert(s.skip(pattern.len() as int) =~= tail);
}

} // verus!
