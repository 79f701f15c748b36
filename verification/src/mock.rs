//! A backend whose value never changes, for tests.

use vstd::prelude::*;
use vstd::string::*;

use crate::documents::{plain_key, DataKey, Dtype};
use crate::error::{CirrusError, Span};
use crate::reading::{ReadingValue, TypedReading};
use crate::signal::{plain_reading, SignalBackend, ToJson};
use crate::status::{Status, StatusOutcome, SubToken};
use crate::text::join2;
use crate::value::Double;

verus! {

/// A backend that gives a fixed value forever. Its readings carry the time zero.
#[derive(Debug)]
pub struct MockBackend<T> {
    value: T,
}

impl<T> MockBackend<T> {
    /// The fixed value.
    pub closed spec fn fixed(&self) -> T {
        self.value
    }

    /// Builds a backend with a fixed value.
    pub fn new(value: T) -> (b: Self)
        ensures
            b.fixed() == value,
    {
        MockBackend { value }
    }
}

impl<T: ToJson> SignalBackend<T> for MockBackend<T> {
    open spec fn connects(
        before: Self,
        timeout: Span,
        after: Self,
        r: Result<(), CirrusError>,
    ) -> bool {
        r is Ok && after == before
    }

    open spec fn puts(
        before: Self,
        value: T,
        wait: bool,
        timeout: Option<Span>,
        after: Self,
        r: (Status, Vec<u64>),
    ) -> bool {
        &&& r.0@.outcome == Some(StatusOutcome::Success)
        &&& r.1@.len() == 0
        &&& after == before
    }

    open spec fn describes(self, source: Seq<char>, r: Result<DataKey, CirrusError>) -> bool {
        r matches Ok(k) && k.deep_view() == plain_key("mock://"@ + source, Dtype::Number, seq![])
    }

    open spec fn reads(self, now: Double, r: Result<ReadingValue, CirrusError>) -> bool {
        r matches Ok(x) && x.deep_view() == plain_reading(self.fixed().json(), Double { bits: 0 })
    }

    open spec fn gives(self, r: Result<T, CirrusError>) -> bool {
        r == Ok::<T, CirrusError>(self.fixed())
    }

    open spec fn gives_setpoint(self, r: Result<T, CirrusError>) -> bool {
        r == Ok::<T, CirrusError>(self.fixed())
    }

    open spec fn can_watch(self) -> bool {
        true
    }

    open spec fn watches(before: Self, callback: Option<u64>, after: Self, token: SubToken) -> bool {
        token@ is None && after == before
    }

    open spec fn address(self, name: Seq<char>) -> Seq<char> {
        "mock://"@ + name
    }

    fn connect(&mut self, timeout: Span) -> (r: Result<(), CirrusError>) {
        Ok(())
    }

    fn put(&mut self, value: T, wait: bool, timeout: Option<Span>) -> (r: (Status, Vec<u64>)) {
        (Status::done(), Vec::new())
    }

    fn get_datakey(&self, source: &str) -> (r: Result<DataKey, CirrusError>) {
        Ok(DataKey::plain(join2("mock://", source), Dtype::Number, Vec::new()))
    }

    fn get_reading(&self, now: Double) -> (r: Result<ReadingValue, CirrusError>) {
        Ok(TypedReading::new(self.value.to_json(), Double { bits: 0 }))
    }

    fn get_value(&self) -> (r: Result<T, CirrusError>) {
        Ok(self.value.copied())
    }

    fn get_setpoint(&self) -> (r: Result<T, CirrusError>) {
        Ok(self.value.copied())
    }

    fn set_callback(&mut self, callback: Option<u64>) -> (token: SubToken) {
        SubToken::noop()
    }

    fn source(&self, name: &str) -> (s: String) {
        join2("mock://", name)
    }
}

/// A backend with a fixed value gives it whatever is put, tells nobody, and changes nothing.
pub proof fn law_fixed_value_stays<T: ToJson>(
    before: MockBackend<T>,
    value: T,
    wait: bool,
    timeout: Option<Span>,
    after: MockBackend<T>,
    r: (Status, Vec<u64>),
    got: Result<T, CirrusError>,
    setpoint: Result<T, CirrusError>,
)
    requires
        MockBackend::puts(before, value, wait, timeout, after, r),
        after.gives(got),
        after.gives_setpoint(setpoint),
    ensures
        r.0@.outcome == Some(StatusOutcome::Success),
        r.1@.len() == 0,
        got == Ok::<T, CirrusError>(before.fixed()),
        setpoint == Ok::<T, CirrusError>(before.fixed()),
{
}

} // verus!
