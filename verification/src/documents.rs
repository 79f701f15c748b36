//! The documents that a run emits.

use vstd::prelude::*;
use vstd::string::*;

use crate::strmap::StrMap;
use crate::value::{Double, Duplicate, Json, JsonView};

verus! {

/// Visualization hints carried in [`RunStart`].
#[derive(Debug)]
pub struct Hints {
    /// Independent axes of the experiment, ordered slow-to-fast.
    pub dimensions: Option<Vec<Vec<Vec<String>>>>,
}

/// Document created at the start of every run.
#[derive(Debug)]
pub struct RunStart {
    /// Globally unique ID for this run.
    pub uid: String,
    /// Unix epoch time the run started.
    pub time: Double,
    /// Scan ID number (not globally unique).
    pub scan_id: Option<u64>,
    /// Visualization hints.
    pub hints: Option<Hints>,
    /// Information about the sample.
    pub sample: Option<Json>,
    /// Free-form additional metadata.
    pub extra: StrMap<Json>,
}

/// Final document of a run.
#[derive(Debug)]
pub struct RunStop {
    /// UID of this stop document.
    pub uid: String,
    /// UID of the run start this stop closes.
    pub run_start: String,
    /// Unix epoch time the run ended.
    pub time: Double,
    /// How the run ended.
    pub exit_status: String,
    /// Optional human-readable reason.
    pub reason: Option<String>,
    /// Per-stream sequence-number counters at run close.
    pub num_events: StrMap<u64>,
}

/// Broad JSON schema type of a [`DataKey`].
#[derive(Copy, Clone, Debug, PartialEq, Eq, Structural)]
pub enum Dtype {
    /// JSON string.
    String,
    /// JSON number.
    Number,
    /// JSON array.
    Array,
    /// JSON boolean.
    Boolean,
    /// JSON integer.
    Integer,
}

/// Inclusive numeric range used in EPICS-style limits.
#[derive(Copy, Clone, Debug, PartialEq, Eq)]
pub struct LimitsRange {
    /// Upper bound (`None`: no limit).
    pub high: Option<Double>,
    /// Lower bound (`None`: no limit).
    pub low: Option<Double>,
}

/// EPICS limits attached to a data key.
#[derive(Copy, Clone, Debug, PartialEq, Eq)]
pub struct Limits {
    /// Alarm limits.
    pub alarm: Option<LimitsRange>,
    /// Control (writable) limits.
    pub control: Option<LimitsRange>,
    /// Display limits.
    pub display: Option<LimitsRange>,
    /// Warning limits.
    pub warning: Option<LimitsRange>,
    /// Hysteresis.
    pub hysteresis: Option<Double>,
}

/// Describes one field of a stream.
#[derive(Debug)]
pub struct DataKey {
    /// Source identifier (such as a CA URL).
    pub source: String,
    /// Broad JSON type.
    pub dtype: Dtype,
    /// Shape; empty for a scalar.
    pub shape: Vec<Option<u64>>,
    /// Optional numpy dtype string.
    pub dtype_numpy: Option<String>,
    /// `STREAM:` if the data is referenced via stream resources.
    pub external: Option<String>,
    /// Engineering units.
    pub units: Option<String>,
    /// Digits after the decimal point.
    pub precision: Option<i64>,
    /// Object that produced this key.
    pub object_name: Option<String>,
    /// Dimension names.
    pub dims: Option<Vec<String>>,
    /// EPICS limits.
    pub limits: Option<Limits>,
}

/// What a [`DataKey`] stands for.
pub struct DataKeyView {
    /// Source identifier.
    pub source: Seq<char>,
    /// Broad JSON type.
    pub dtype: Dtype,
    /// Shape.
    pub shape: Seq<Option<u64>>,
    /// Numpy dtype string.
    pub dtype_numpy: Option<Seq<char>>,
    /// External reference marker.
    pub external: Option<Seq<char>>,
    /// Engineering units.
    pub units: Option<Seq<char>>,
    /// Digits after the decimal point.
    pub precision: Option<i64>,
    /// Object that produced this key.
    pub object_name: Option<Seq<char>>,
    /// Dimension names.
    pub dims: Option<Seq<Seq<char>>>,
    /// EPICS limits.
    pub limits: Option<Limits>,
}

impl DeepView for DataKey {
    type V = DataKeyView;

    open spec fn deep_view(&self) -> DataKeyView {
        DataKeyView {
            source: self.source@,
            dtype: self.dtype,
            shape: self.shape@,
            dtype_numpy: self.dtype_numpy.deep_view(),
            external: self.external.deep_view(),
            units: self.units.deep_view(),
            precision: self.precision,
            object_name: self.object_name.deep_view(),
            dims: self.dims.deep_view(),
            limits: self.limits,
        }
    }
}

/// Copies a vector of numbers or gaps.
fn copy_shape(v: &Vec<Option<u64>>) -> (copy: Vec<Option<u64>>)
    ensures
        copy@ == v@,
{
    let mut copy: Vec<Option<u64>> = Vec::new();
    let mut i: usize = 0;
    while i < v.len()
        invariant
            i <= v.len(),
            copy@ == v@.take(i as int),
        decreases v.len() - i,
    {
        copy.push(v[i]);
        i += 1;
        assert(copy@ =~= v@.take(i as int));
    }
    assert(v@.take(v@.len() as int) =~= v@);
    copy
}

/// Copies a vector of strings.
pub fn copy_strings(v: &Vec<String>) -> (copy: Vec<String>)
    ensures
        copy.deep_view() == v.deep_view(),
        copy@ == v@,
{
    let mut copy: Vec<String> = Vec::new();
    let mut i: usize = 0;
    while i < v.len()
        invariant
            i <= v.len(),
            copy@ == v@.take(i as int),
        decreases v.len() - i,
    {
        copy.push(v[i].clone());
        i += 1;
        assert(copy@ =~= v@.take(i as int));
    }
    assert(v@.take(v@.len() as int) =~= v@);
    copy
}

impl Duplicate for DataKey {
    fn duplicate(&self) -> (copy: Self) {
        let dims = match &self.dims {
            Some(names) => Some(copy_strings(names)),
            None => None,
        };
        DataKey {
            source: self.source.clone(),
            dtype: self.dtype,
            shape: copy_shape(&self.shape),
            dtype_numpy: crate::text::clone_opt(&self.dtype_numpy),
            external: crate::text::clone_opt(&self.external),
            units: crate::text::clone_opt(&self.units),
            precision: self.precision,
            object_name: crate::text::clone_opt(&self.object_name),
            dims,
            limits: self.limits,
        }
    }
}

impl DataKey {
    /// A key with the given source, type and shape, and nothing else set.
    pub fn plain(source: String, dtype: Dtype, shape: Vec<Option<u64>>) -> (key: DataKey)
        ensures
            key.deep_view() == plain_key(source@, dtype, shape@),
    {
        DataKey {
            source,
            dtype,
            shape,
            dtype_numpy: None,
            external: None,
            units: None,
            precision: None,
            object_name: None,
            dims: None,
            limits: None,
        }
    }
}

/// A key with the given source, type and shape, and nothing else set.
pub open spec fn plain_key(source: Seq<char>, dtype: Dtype, shape: Seq<Option<u64>>) -> DataKeyView {
    DataKeyView {
        source,
        dtype,
        shape,
        dtype_numpy: None,
        external: None,
        units: None,
        precision: None,
        object_name: None,
        dims: None,
        limits: None,
    }
}

/// Per-object hint hung off the descriptor.
#[derive(Debug)]
#[allow(non_snake_case)]
pub struct PerObjectHint {
    /// Names of fields considered interesting.
    pub fields: Option<Vec<String>>,
    /// NeXus class for the device. The field name keeps the schema spelling.
    pub NX_class: Option<String>,
}

/// What a [`PerObjectHint`] stands for.
#[allow(non_snake_case)]
pub struct PerObjectHintView {
    /// Names of fields considered interesting.
    pub fields: Option<Seq<Seq<char>>>,
    /// NeXus class for the device.
    pub NX_class: Option<Seq<char>>,
}

impl DeepView for PerObjectHint {
    type V = PerObjectHintView;

    open spec fn deep_view(&self) -> PerObjectHintView {
        PerObjectHintView {
            fields: self.fields.deep_view(),
            NX_class: self.NX_class.deep_view(),
        }
    }
}

/// Configuration sub-document (slow-changing fields).
#[derive(Debug)]
pub struct Configuration {
    /// Field values.
    pub data: StrMap<Json>,
    /// Field descriptors.
    pub data_keys: StrMap<DataKey>,
    /// Field timestamps.
    pub timestamps: StrMap<Double>,
}

/// What a [`Configuration`] stands for.
pub struct ConfigurationView {
    /// Field values.
    pub data: Map<Seq<char>, JsonView>,
    /// Field descriptors.
    pub data_keys: Map<Seq<char>, DataKeyView>,
    /// Field timestamps.
    pub timestamps: Map<Seq<char>, Double>,
}

impl DeepView for Configuration {
    type V = ConfigurationView;

    open spec fn deep_view(&self) -> ConfigurationView {
        ConfigurationView {
            data: self.data@,
            data_keys: self.data_keys@,
            timestamps: self.timestamps@,
        }
    }
}

/// Describes a stream of events.
#[derive(Debug)]
pub struct EventDescriptor {
    /// UID of this descriptor.
    pub uid: String,
    /// UID of the run-start document.
    pub run_start: String,
    /// Time the descriptor was emitted.
    pub time: Double,
    /// Field descriptors keyed by field name.
    pub data_keys: StrMap<DataKey>,
    /// Configuration sub-readings keyed by object name.
    pub configuration: StrMap<Configuration>,
    /// Stream name (such as `primary` or `baseline`).
    pub name: Option<String>,
    /// Per-object hints.
    pub hints: Option<StrMap<PerObjectHint>>,
    /// Object to fields mapping.
    pub object_keys: StrMap<Vec<String>>,
}

/// One row of measurements for one stream.
#[derive(Debug)]
pub struct Event {
    /// UID of this event.
    pub uid: String,
    /// UID of the descriptor.
    pub descriptor: String,
    /// Time the event was assembled.
    pub time: Double,
    /// Sequence number within the stream.
    pub seq_num: u64,
    /// Field values keyed by field name.
    pub data: StrMap<Json>,
    /// Per-field timestamps.
    pub timestamps: StrMap<Double>,
    /// Filled state of external references.
    pub filled: StrMap<bool>,
}

/// Page-form event: several rows in one document.
#[derive(Debug)]
pub struct EventPage {
    /// UID for this page.
    pub uid: String,
    /// Descriptor UID.
    pub descriptor: String,
    /// Times for each event.
    pub time: Vec<Double>,
    /// Sequence numbers for each event.
    pub seq_num: Vec<u64>,
    /// Field name to list of values.
    pub data: StrMap<Vec<Json>>,
    /// Field name to list of timestamps.
    pub timestamps: StrMap<Vec<Double>>,
}

/// External resource (file) that holds data referenced by events.
#[derive(Debug)]
pub struct Resource {
    /// UID of this resource.
    pub uid: String,
    /// Filing format identifier.
    pub spec: String,
    /// Root directory path.
    pub root: String,
    /// Resource path relative to `root`.
    pub resource_path: String,
    /// Path semantics (`posix` or `windows`).
    pub path_semantics: String,
    /// Format-specific arguments.
    pub resource_kwargs: StrMap<Json>,
    /// UID of the run-start.
    pub run_start: Option<String>,
}

/// Pointer to a single data row inside a resource.
#[derive(Debug)]
pub struct Datum {
    /// Datum UID; by convention the resource and an index.
    pub datum_id: String,
    /// UID of the parent resource.
    pub resource: String,
    /// Format-specific arguments to address this row.
    pub datum_kwargs: StrMap<Json>,
}

/// Page-form datum.
#[derive(Debug)]
pub struct DatumPage {
    /// Datum UIDs.
    pub datum_id: Vec<String>,
    /// Parent resource UID.
    pub resource: String,
    /// Per-field bulk arguments.
    pub datum_kwargs: StrMap<Vec<Json>>,
}

/// Stream-style resource for bulk data.
#[derive(Debug)]
pub struct StreamResource {
    /// UID of this stream resource.
    pub uid: String,
    /// Data key in the descriptor that this resource serves.
    pub data_key: String,
    /// Mimetype identifier.
    pub mimetype: String,
    /// URI for locating this resource.
    pub uri: String,
    /// Handler-specific parameters.
    pub parameters: StrMap<Json>,
    /// UID of the run-start.
    pub run_start: Option<String>,
}

/// Half-open range of integers used by [`StreamDatum`].
#[derive(Copy, Clone, Debug, PartialEq, Eq, Structural)]
pub struct StreamRange {
    /// First number in the range.
    pub start: u64,
    /// One past the last number.
    pub stop: u64,
}

/// A slice of stream data inside a [`StreamResource`].
#[derive(Debug, PartialEq, Eq)]
pub struct StreamDatum {
    /// UID for this datum.
    pub uid: String,
    /// UID of the parent stream resource.
    pub stream_resource: String,
    /// UID of the descriptor.
    pub descriptor: String,
    /// Slice into the resource's data.
    pub indices: StreamRange,
    /// Slice into the event sequence-number space.
    pub seq_nums: StreamRange,
}

/// One of the ten document kinds.
#[derive(Debug)]
pub enum Document {
    /// Run start.
    Start(RunStart),
    /// Stream descriptor.
    Descriptor(EventDescriptor),
    /// One event.
    Event(Event),
    /// Page of events.
    EventPage(EventPage),
    /// External resource.
    Resource(Resource),
    /// Datum (pointer into a resource).
    Datum(Datum),
    /// Page of datums.
    DatumPage(DatumPage),
    /// Stream resource.
    StreamResource(StreamResource),
    /// Slice of a stream resource.
    StreamDatum(StreamDatum),
    /// Run stop.
    Stop(RunStop),
}

/// The name under which a document of this kind travels.
pub open spec fn document_name_of(d: Document) -> Seq<char> {
    match d {
        Document::Start(_) => "start"@,
        Document::Descriptor(_) => "descriptor"@,
        Document::Event(_) => "event"@,
        Document::EventPage(_) => "event_page"@,
        Document::Resource(_) => "resource"@,
        Document::Datum(_) => "datum"@,
        Document::DatumPage(_) => "datum_page"@,
        Document::StreamResource(_) => "stream_resource"@,
        Document::StreamDatum(_) => "stream_datum"@,
        Document::Stop(_) => "stop"@,
    }
}

/// The name under which a document of this kind travels.
pub fn document_name(d: &Document) -> (name: &'static str)
    ensures
        name@ == document_name_of(*d),
{
    match d {
        Document::Start(_) => "start",
        Document::Descriptor(_) => "descriptor",
        Document::Event(_) => "event",
        Document::EventPage(_) => "event_page",
        Document::Resource(_) => "resource",
        Document::Datum(_) => "datum",
        Document::DatumPage(_) => "datum_page",
        Document::StreamResource(_) => "stream_resource",
        Document::StreamDatum(_) => "stream_datum",
        Document::Stop(_) => "stop",
    }
}

} // verus!
