//! Readings: a value, its timestamp, and an optional alarm.

use vstd::prelude::*;
use vstd::string::*;

use crate::value::{double_json, Double, Duplicate, Json, JsonView};

verus! {

/// One reading of one field.
#[derive(Debug)]
pub struct TypedReading<T> {
    /// The value.
    pub value: T,
    /// Unix epoch timestamp in seconds.
    pub timestamp: Double,
    /// Optional alarm severity (0 is no alarm).
    pub alarm_severity: Option<i32>,
    /// Optional alarm message.
    pub message: Option<String>,
}

/// A reading whose value is a JSON tree.
pub type ReadingValue = TypedReading<Json>;

/// What a [`ReadingValue`] stands for.
pub struct ReadingView {
    /// The value.
    pub value: JsonView,
    /// Unix epoch timestamp in seconds.
    pub timestamp: Double,
    /// Optional alarm severity.
    pub alarm_severity: Option<i32>,
    /// Optional alarm message.
    pub message: Option<Seq<char>>,
}

impl DeepView for TypedReading<Json> {
    type V = ReadingView;

    open spec fn deep_view(&self) -> ReadingView {
        ReadingView {
            value: self.value.deep_view(),
            timestamp: self.timestamp,
            alarm_severity: self.alarm_severity,
            message: self.message.deep_view(),
        }
    }
}

impl Duplicate for TypedReading<Json> {
    fn duplicate(&self) -> (copy: Self) {
        TypedReading {
            value: self.value.duplicate(),
            timestamp: self.timestamp,
            alarm_severity: self.alarm_severity,
            message: crate::text::clone_opt(&self.message),
        }
    }
}

impl<T> TypedReading<T> {
    /// A reading with no alarm.
    pub fn new(value: T, timestamp: Double) -> (r: Self)
        ensures
            r.value == value,
            r.timestamp == timestamp,
            r.alarm_severity is None,
            r.message is None,
    {
        TypedReading { value, timestamp, alarm_severity: None, message: None }
    }
}

impl TypedReading<Double> {
    /// The same reading with its value as JSON.
    pub fn into_value(self) -> (r: ReadingValue)
        ensures
            r.deep_view() == (ReadingView {
                value: double_json(self.value),
                timestamp: self.timestamp,
                alarm_severity: self.alarm_severity,
                message: self.message.deep_view(),
            }),
    {
        TypedReading {
            value: self.value.into_json(),
            timestamp: self.timestamp,
            alarm_severity: self.alarm_severity,
            message: self.message,
        }
    }
}

/// A reading keeps its timestamp and its alarm when its value becomes JSON, and a finite value is
/// kept.
pub proof fn law_reading_keeps_its_parts(r: TypedReading<Double>, v: ReadingValue)
    requires
        call_ensures(TypedReading::<Double>::into_value, (r,), v),
    ensures
        v.deep_view().timestamp == r.timestamp,
        v.deep_view().alarm_severity == r.alarm_severity,
        v.deep_view().message == r.message.deep_view(),
        r.value.finite() ==> v.deep_view().value == JsonView::Real(r.value),
        !r.value.finite() ==> v.deep_view().value is Null,
{
}

} // verus!
