//! Composes the documents of one run: fresh UIDs, descriptors, sequence numbers.

use vstd::prelude::*;
use vstd::string::*;

use crate::documents::{
    Configuration, DataKey, DataKeyView, Dtype, Event, EventDescriptor, Hints, PerObjectHint,
    RunStart, RunStop, StreamDatum, StreamRange, StreamResource,
};
use crate::strmap::StrMap;
use crate::value::{Double, Duplicate, Json};

verus! {

/// Whether a character is a hexadecimal digit in lower case.
pub open spec fn is_hex(c: char) -> bool {
    '0' <= c <= '9' || 'a' <= c <= 'f'
}

/// Whether a text is a version-4 UUID in its hyphenated form, in lower case.
#[verifier::opaque]
pub open spec fn is_uid(s: Seq<char>) -> bool {
    &&& s.len() == 36
    &&& forall|i: int|
        0 <= i < 36 ==> if i == 8 || i == 13 || i == 18 || i == 23 {
            #[trigger] s[i] == '-'
        } else {
            is_hex(s[i])
        }
    &&& s[14] == '4'
    &&& s[19] == '8' || s[19] == '9' || s[19] == 'a' || s[19] == 'b'
}

/// Generates a fresh version-4 UUID in hyphenated hexadecimal.
///
/// Calls `uuid::Uuid::new_v4` and renders it with `to_string`. The text is random; every
/// outcome has the hyphenated form in lower case, with the digits of the version and the
/// variant in their places. That two outcomes differ is not claimed.
#[verifier::external_body]
pub fn new_uid() -> (uid: String)
    ensures
        is_uid(uid@),
{
    uuid::Uuid::new_v4().to_string()
}

/// The part of a data key that fixes the layout of a column.
pub struct ColumnView {
    /// Broad JSON type.
    pub dtype: Dtype,
    /// Shape.
    pub shape: Seq<Option<u64>>,
}

/// The layout of one column.
#[derive(Debug)]
struct Column {
    dtype: Dtype,
    shape: Vec<Option<u64>>,
}

impl DeepView for Column {
    type V = ColumnView;

    closed spec fn deep_view(&self) -> ColumnView {
        ColumnView { dtype: self.dtype, shape: self.shape@ }
    }
}

/// The layout of the columns that `keys` describe.
pub open spec fn columns(keys: Map<Seq<char>, DataKeyView>) -> Map<Seq<char>, ColumnView> {
    keys.map_values(|k: DataKeyView| ColumnView { dtype: k.dtype, shape: k.shape })
}

/// State of one declared stream.
#[derive(Debug)]
struct StreamState {
    descriptor_uid: String,
    columns: StrMap<Column>,
    seq_num: u64,
}

/// What is known of one declared stream.
pub struct StreamView {
    /// UID of the descriptor that declared the stream.
    pub descriptor_uid: Seq<char>,
    /// Layout that the descriptor gave.
    pub columns: Map<Seq<char>, ColumnView>,
    /// Number of events composed so far.
    pub seq_num: nat,
}

impl DeepView for StreamState {
    type V = StreamView;

    closed spec fn deep_view(&self) -> StreamView {
        StreamView {
            descriptor_uid: self.descriptor_uid@,
            columns: self.columns@,
            seq_num: self.seq_num as nat,
        }
    }
}

/// Per-run composer: remembers the descriptor of each stream and counts its events.
#[derive(Debug)]
pub struct RunBundle {
    start_uid: String,
    streams: StrMap<StreamState>,
}

/// What a [`RunBundle`] stands for.
pub struct BundleView {
    /// UID of the run-start document.
    pub start_uid: Seq<char>,
    /// The declared streams.
    pub streams: Map<Seq<char>, StreamView>,
}

impl View for RunBundle {
    type V = BundleView;

    closed spec fn view(&self) -> BundleView {
        BundleView { start_uid: self.start_uid@, streams: self.streams@ }
    }
}

impl DeepView for RunBundle {
    type V = BundleView;

    open spec fn deep_view(&self) -> BundleView {
        self@
    }
}

impl BundleView {
    /// The view with `stream` declared by the descriptor `uid`.
    pub open spec fn declare(
        self,
        stream: Seq<char>,
        uid: Seq<char>,
        keys: Map<Seq<char>, DataKeyView>,
    ) -> BundleView {
        BundleView {
            streams: self.streams.insert(
                stream,
                StreamView { descriptor_uid: uid, columns: columns(keys), seq_num: 0 },
            ),
            ..self
        }
    }

    /// The view after one more event on `stream`.
    pub open spec fn count(self, stream: Seq<char>) -> BundleView {
        let st = self.streams[stream];
        BundleView {
            streams: self.streams.insert(
                stream,
                StreamView { seq_num: st.seq_num + 1, ..st },
            ),
            ..self
        }
    }

    /// Whether each stream can number `n` more events.
    pub open spec fn room(self, n: nat) -> bool {
        forall|k: Seq<char>| #[trigger]
            self.streams.dom().contains(k) ==> self.streams[k].seq_num + n <= u64::MAX
    }

    /// Whether `stream` is declared with the layout of `keys`.
    pub open spec fn declared_as(
        self,
        stream: Seq<char>,
        keys: Map<Seq<char>, DataKeyView>,
    ) -> bool {
        self.streams.dom().contains(stream) && self.streams[stream].columns == columns(keys)
    }
}

/// The outcome of composing an event on `stream`: the event and the bundle after it.
pub open spec fn event_composed(
    before: BundleView,
    after: BundleView,
    stream: Seq<char>,
    event: Event,
) -> bool {
    &&& before.streams.dom().contains(stream)
    &&& after == before.count(stream)
    &&& is_uid(event.uid@)
    &&& event.descriptor@ == before.streams[stream].descriptor_uid
    &&& event.seq_num == before.streams[stream].seq_num + 1
    &&& event.filled@ == Map::<Seq<char>, bool>::empty()
}

/// The outcome of composing a descriptor: the document and the bundle after it.
pub open spec fn descriptor_composed(
    before: BundleView,
    after: BundleView,
    stream: Seq<char>,
    d: EventDescriptor,
) -> bool {
    let keys = d.data_keys@;
    &&& d.run_start@ == before.start_uid
    &&& d.name matches Some(n) && n@ == stream
    &&& if before.declared_as(stream, keys) {
        d.uid@ == before.streams[stream].descriptor_uid
    } else {
        is_uid(d.uid@)
    }
    &&& after == if before.streams.dom().contains(stream) {
        before
    } else {
        before.declare(stream, d.uid@, keys)
    }
}

/// The per-stream event counts of a bundle.
pub open spec fn event_counts(b: BundleView) -> Map<Seq<char>, u64> {
    b.streams.map_values(|s: StreamView| s.seq_num as u64)
}

/// The columns that data keys describe.
fn columns_of(keys: &StrMap<DataKey>) -> (cols: StrMap<Column>)
    ensures
        cols@ == columns(keys@),
{
    let mut left = keys.duplicate();
    let mut cols: StrMap<Column> = StrMap::new();
    proof {
        assert(cols@.union_prefer_right(columns(left@)) =~= columns(keys@));
    }
    loop
        invariant
            cols@.union_prefer_right(columns(left@)) == columns(keys@),
            forall|k: Seq<char>| #[trigger]
                left@.dom().contains(k) ==> keys@.dom().contains(k) && left@[k] == keys@[k],
        ensures
            cols@ == columns(keys@),
        decreases left.pairs().len(),
    {
        let ghost before = left@;
        let ghost cols_before = cols@;
        match left.pop() {
            None => {
                proof {
                    assert(cols@.union_prefer_right(columns(left@)) =~= cols@);
                }
                break;
            },
            Some((k, key)) => {
                cols.insert(k, Column { dtype: key.dtype, shape: key.shape });
                proof {
                    assert(cols@.union_prefer_right(columns(left@))
                        =~= cols_before.union_prefer_right(columns(before)));
                }
            },
        }
    }
    cols
}

/// Whether two shapes agree.
fn same_shape(a: &Vec<Option<u64>>, b: &Vec<Option<u64>>) -> (same: bool)
    ensures
        same == (a@ == b@),
{
    if a.len() != b.len() {
        return false;
    }
    let mut i: usize = 0;
    while i < a.len()
        invariant
            i <= a.len(),
            a.len() == b.len(),
            forall|k: int| 0 <= k < i ==> a@[k] == b@[k],
        decreases a.len() - i,
    {
        let same = match (a[i], b[i]) {
            (Some(x), Some(y)) => x == y,
            (None, None) => true,
            _ => false,
        };
        if !same {
            return false;
        }
        i += 1;
    }
    assert(a@ =~= b@);
    true
}

/// Whether every column of `a` stands in `b` with the same layout.
fn columns_within(a: &StrMap<Column>, b: &StrMap<Column>) -> (yes: bool)
    ensures
        yes == forall|k: Seq<char>| #[trigger]
            a@.dom().contains(k) ==> b@.dom().contains(k) && b@[k] == a@[k],
{
    let mut i: usize = 0;
    while i < a.len()
        invariant
            i <= a.pairs().len(),
            forall|j: int|
                0 <= j < i ==> b@.dom().contains((#[trigger] a.pairs()[j]).0)
                    && b@[a.pairs()[j].0] == a@[a.pairs()[j].0],
        decreases a.pairs().len() - i,
    {
        let key = a.key_at(i);
        let left = a.value_at(i);
        match b.get(key) {
            None => {
                return false;
            },
            Some(right) => {
                if !(left.dtype == right.dtype && same_shape(&left.shape, &right.shape)) {
                    return false;
                }
                assert(left.deep_view() == right.deep_view());
            },
        }
        i += 1;
    }
    proof {
        a.lemma_keys();
        assert forall|k: Seq<char>| #[trigger] a@.dom().contains(k) implies b@.dom().contains(k)
            && b@[k] == a@[k] by {
            let j = choose|j: int| 0 <= j < a.pairs().len() && (#[trigger] a.pairs()[j]).0 == k;
            assert(a.pairs()[j].0 == k);
        }
    }
    true
}

impl RunBundle {
    /// Opens the composer of the run that `start` begins.
    pub fn open(start: &RunStart) -> (b: Self)
        ensures
            b@.start_uid == start.uid@,
            b@.streams == Map::<Seq<char>, StreamView>::empty(),
    {
        RunBundle { start_uid: start.uid.clone(), streams: StrMap::new() }
    }

    /// Composes the start document of a new run.
    pub fn start(scan_id: Option<u64>, hints: Option<Hints>, time: Double) -> (start: RunStart)
        ensures
            is_uid(start.uid@),
            start.time == time,
            start.scan_id == scan_id,
            start.hints == hints,
            start.sample is None,
            start.extra@ == Map::<Seq<char>, crate::value::JsonView>::empty(),
    {
        RunStart { uid: new_uid(), time, scan_id, hints, sample: None, extra: StrMap::new() }
    }

    /// Composes a stream descriptor, and says whether the stream is new. If a descriptor of
    /// the same layout already exists for this stream name, the result carries its UID and is
    /// not to be emitted again.
    pub fn descriptor(
        &mut self,
        name: &str,
        data_keys: StrMap<DataKey>,
        configuration: StrMap<Configuration>,
        hints: Option<StrMap<PerObjectHint>>,
        object_keys: StrMap<Vec<String>>,
        time: Double,
    ) -> (r: (EventDescriptor, bool))
        ensures
            descriptor_composed(old(self)@, final(self)@, name@, r.0),
            r.0.time == time,
            r.0.data_keys == data_keys,
            r.0.configuration == configuration,
            r.0.hints == hints,
            r.0.object_keys == object_keys,
            r.1 == !old(self)@.streams.dom().contains(name@),
    {
        let cols = columns_of(&data_keys);
        let (uid, is_new) = match self.streams.get(name) {
            Some(st) => {
                let same = columns_within(&cols, &st.columns) && columns_within(&st.columns, &cols);
                proof {
                    if same {
                        assert(cols@ =~= st.columns@);
                    }
                }
                if same {
                    (st.descriptor_uid.clone(), false)
                } else {
                    (new_uid(), false)
                }
            },
            None => (new_uid(), true),
        };
        if is_new {
            self.streams.insert(
                name.to_owned(),
                StreamState { descriptor_uid: uid.clone(), columns: cols, seq_num: 0 },
            );
        }
        let descriptor = EventDescriptor {
            uid,
            run_start: self.start_uid.clone(),
            time,
            data_keys,
            configuration,
            name: Some(name.to_owned()),
            hints,
            object_keys,
        };
        (descriptor, is_new)
    }

    /// Composes an event for a stream that already has a descriptor. `None` if the stream
    /// name was never declared.
    pub fn event(
        &mut self,
        stream_name: &str,
        data: StrMap<Json>,
        timestamps: StrMap<Double>,
        time: Double,
    ) -> (event: Option<Event>)
        requires
            old(self)@.streams.dom().contains(stream_name@) ==> old(
                self,
            )@.streams[stream_name@].seq_num < u64::MAX,
        ensures
            match event {
                Some(e) => event_composed(old(self)@, final(self)@, stream_name@, e) && e.time
                    == time && e.data == data && e.timestamps == timestamps,
                None => !old(self)@.streams.dom().contains(stream_name@) && final(self)@
                    == old(self)@,
            },
    {
        match self.streams.remove(stream_name) {
            None => {
                assert(self.streams@ =~= old(self).streams@);
                None
            },
            Some(mut st) => {
                st.seq_num = st.seq_num + 1;
                let event = Event {
                    uid: new_uid(),
                    descriptor: st.descriptor_uid.clone(),
                    time,
                    seq_num: st.seq_num,
                    data,
                    timestamps,
                    filled: StrMap::new(),
                };
                self.streams.insert(stream_name.to_owned(), st);
                assert(self.streams@ =~= old(self)@.count(stream_name@).streams);
                Some(event)
            },
        }
    }

    /// Composes the stop document of the run.
    pub fn stop(&self, exit_status: &str, reason: Option<String>, time: Double) -> (stop: RunStop)
        ensures
            is_uid(stop.uid@),
            stop.run_start@ == self@.start_uid,
            stop.time == time,
            stop.exit_status@ == exit_status@,
            stop.reason == reason,
            stop.num_events@ == event_counts(self@),
    {
        let mut num_events: StrMap<u64> = StrMap::new();
        let mut i: usize = 0;
        let ghost pairs = self.streams.pairs();
        while i < self.streams.len()
            invariant
                i <= pairs.len(),
                pairs == self.streams.pairs(),
                forall|k: Seq<char>| #[trigger]
                    num_events@.dom().contains(k) <==> exists|j: int|
                        0 <= j < i && (#[trigger] pairs[j]).0 == k,
                forall|k: Seq<char>| #[trigger]
                    num_events@.dom().contains(k) ==> self.streams@.dom().contains(k)
                        && num_events@[k] == self.streams@[k].seq_num as u64,
            decreases pairs.len() - i,
        {
            let name = self.streams.key_at(i);
            let st = self.streams.value_at(i);
            let ghost before = num_events@;
            num_events.insert(name.clone(), st.seq_num);
            proof {
                assert forall|k: Seq<char>| #[trigger]
                    num_events@.dom().contains(k) <==> exists|j: int|
                        0 <= j < i + 1 && (#[trigger] pairs[j]).0 == k by {
                    if num_events@.dom().contains(k) {
                        if k == name@ {
                            assert(pairs[i as int].0 == k);
                        } else {
                            assert(before.dom().contains(k));
                        }
                    }
                    if exists|j: int| 0 <= j < i + 1 && (#[trigger] pairs[j]).0 == k {
                        let j = choose|j: int| 0 <= j < i + 1 && (#[trigger] pairs[j]).0 == k;
                        if j < i {
                            assert(before.dom().contains(k));
                        }
                    }
                }
            }
            i += 1;
        }
        proof {
            self.streams.lemma_keys();
            assert forall|k: Seq<char>|
                num_events@.dom().contains(k) == event_counts(self@).dom().contains(k) by {
                if self.streams@.dom().contains(k) {
                    let j = choose|j: int| 0 <= j < pairs.len() && (#[trigger] pairs[j]).0 == k;
                    assert(pairs[j].0 == k);
                }
            }
            assert(num_events@ =~= event_counts(self@));
        }
        RunStop {
            uid: new_uid(),
            run_start: self.start_uid.clone(),
            time,
            exit_status: exit_status.to_owned(),
            reason,
            num_events,
        }
    }

    /// Composes a stream resource for a fly-style data path.
    pub fn stream_resource(
        &self,
        data_key: String,
        mimetype: String,
        uri: String,
        parameters: StrMap<Json>,
    ) -> (r: StreamResource)
        ensures
            is_uid(r.uid@),
            r.data_key == data_key,
            r.mimetype == mimetype,
            r.uri == uri,
            r.parameters == parameters,
            r.run_start matches Some(u) && u@ == self@.start_uid,
    {
        StreamResource {
            uid: new_uid(),
            data_key,
            mimetype,
            uri,
            parameters,
            run_start: Some(self.start_uid.clone()),
        }
    }

    /// Composes a stream datum for an emitted stream resource.
    pub fn stream_datum(
        &self,
        stream_resource_uid: String,
        descriptor_uid: String,
        indices: StreamRange,
        seq_nums: StreamRange,
    ) -> (r: StreamDatum)
        ensures
            is_uid(r.uid@),
            r.stream_resource == stream_resource_uid,
            r.descriptor == descriptor_uid,
            r.indices == indices,
            r.seq_nums == seq_nums,
    {
        StreamDatum {
            uid: new_uid(),
            stream_resource: stream_resource_uid,
            descriptor: descriptor_uid,
            indices,
            seq_nums,
        }
    }

    /// The run-start UID.
    pub fn start_uid(&self) -> (uid: &str)
        ensures
            uid@ == self@.start_uid,
    {
        self.start_uid.as_str()
    }

    /// The descriptor UID of a stream, if declared.
    pub fn descriptor_uid_for(&self, stream_name: &str) -> (uid: Option<String>)
        ensures
            match uid {
                Some(u) => self@.streams.dom().contains(stream_name@) && u@
                    == self@.streams[stream_name@].descriptor_uid,
                None => !self@.streams.dom().contains(stream_name@),
            },
    {
        match self.streams.get(stream_name) {
            Some(st) => Some(st.descriptor_uid.clone()),
            None => None,
        }
    }

    /// Whether each stream can number `n` more events.
    pub fn has_room(&self, n: u64) -> (yes: bool)
        ensures
            yes == self@.room(n as nat),
    {
        let ghost pairs = self.streams.pairs();
        let mut i: usize = 0;
        while i < self.streams.len()
            invariant
                i <= pairs.len(),
                pairs == self.streams.pairs(),
                forall|j: int|
                    0 <= j < i ==> self.streams@[(#[trigger] pairs[j]).0].seq_num + n <= u64::MAX,
            decreases pairs.len() - i,
        {
            let key = self.streams.key_at(i);
            let st = self.streams.value_at(i);
            if st.seq_num > u64::MAX - n {
                assert(self@.streams.dom().contains(key@));
                return false;
            }
            i += 1;
        }
        proof {
            self.streams.lemma_keys();
            assert forall|k: Seq<char>| #[trigger]
                self@.streams.dom().contains(k) implies self@.streams[k].seq_num + n <= u64::MAX by {
                let j = choose|j: int| 0 <= j < pairs.len() && (#[trigger] pairs[j]).0 == k;
                assert(pairs[j].0 == k);
            }
        }
        true
    }
}

/// Events of one stream are numbered consecutively: two in a row differ by one and name the
/// same descriptor.
pub proof fn law_consecutive_numbers(
    b0: BundleView,
    b1: BundleView,
    b2: BundleView,
    stream: Seq<char>,
    e1: Event,
    e2: Event,
)
    requires
        event_composed(b0, b1, stream, e1),
        event_composed(b1, b2, stream, e2),
    ensures
        e2.seq_num == e1.seq_num + 1,
        e2.descriptor@ == e1.descriptor@,
{
}

/// The first event of a freshly declared stream has number one and names the descriptor that
/// declared the stream.
pub proof fn law_first_number(
    b0: BundleView,
    b1: BundleView,
    b2: BundleView,
    stream: Seq<char>,
    d: EventDescriptor,
    e: Event,
)
    requires
        !b0.streams.dom().contains(stream),
        descriptor_composed(b0, b1, stream, d),
        event_composed(b1, b2, stream, e),
    ensures
        e.seq_num == 1,
        e.descriptor@ == d.uid@,
{
}

/// Composing on one stream leaves every other stream as it was.
pub proof fn law_streams_are_independent(
    b0: BundleView,
    b1: BundleView,
    stream: Seq<char>,
    other: Seq<char>,
    e: Event,
)
    requires
        event_composed(b0, b1, stream, e),
        other != stream,
    ensures
        b1.streams.dom().contains(other) == b0.streams.dom().contains(other),
        b0.streams.dom().contains(other) ==> b1.streams[other] == b0.streams[other],
{
}

/// Describing a declared stream again with the same layout gives its UID and changes nothing.
pub proof fn law_same_layout_same_descriptor(
    b0: BundleView,
    b1: BundleView,
    b2: BundleView,
    stream: Seq<char>,
    d1: EventDescriptor,
    d2: EventDescriptor,
)
    requires
        !b0.streams.dom().contains(stream),
        descriptor_composed(b0, b1, stream, d1),
        descriptor_composed(b1, b2, stream, d2),
        columns(d1.data_keys@) == columns(d2.data_keys@),
    ensures
        d2.uid@ == d1.uid@,
        b2 == b1,
{
}

/// The stop document of a run names the run, says how and why it ended, and counts the events of each
/// of its streams.
pub proof fn law_stop_counts_every_stream(
    b: RunBundle,
    exit_status: &str,
    reason: Option<String>,
    time: Double,
    stop: RunStop,
)
    requires
        call_ensures(RunBundle::stop, (&b, exit_status, reason, time), stop),
        b@.room(0),
    ensures
        stop.run_start@ == b@.start_uid,
        stop.time == time,
        stop.exit_status@ == exit_status@,
        stop.reason == reason,
        forall|k: Seq<char>| #[trigger]
            stop.num_events@.dom().contains(k) <==> b@.streams.dom().contains(k),
        forall|k: Seq<char>| #[trigger]
            stop.num_events@.dom().contains(k) ==> stop.num_events@[k] == b@.streams[k].seq_num,
{
    assert forall|k: Seq<char>| #[trigger] stop.num_events@.dom().contains(k) implies
        stop.num_events@[k] == b@.streams[k].seq_num by {
        assert(b@.streams.dom().contains(k));
    }
}

/// Documents of a fly-style data path carry what they are given; a resource names the run.
pub proof fn law_stream_documents_carry_what_was_given(
    b: RunBundle,
    data_key: String,
    mimetype: String,
    uri: String,
    parameters: StrMap<Json>,
    r: StreamResource,
    descriptor: String,
    indices: StreamRange,
    seq_nums: StreamRange,
    d: StreamDatum,
)
    requires
        call_ensures(RunBundle::stream_resource, (&b, data_key, mimetype, uri, parameters), r),
        call_ensures(RunBundle::stream_datum, (&b, r.uid, descriptor, indices, seq_nums), d),
    ensures
        r.data_key@ == data_key@ && r.mimetype@ == mimetype@ && r.uri@ == uri@,
        r.parameters@ == parameters@,
        r.run_start matches Some(u) && u@ == b@.start_uid,
        d.stream_resource@ == r.uid@,
        d.descriptor@ == descriptor@,
        d.indices == indices && d.seq_nums == seq_nums,
{
}

/// Two descriptions have one layout where they have the same keys, and each key has the same type and
/// the same shape in both.
pub proof fn law_layout_is_types_and_shapes(
    a: Map<Seq<char>, DataKeyView>,
    b: Map<Seq<char>, DataKeyView>,
)
    ensures
        columns(a) == columns(b) <==> a.dom() == b.dom() && forall|k: Seq<char>| #[trigger]
            a.dom().contains(k) ==> a[k].dtype == b[k].dtype && a[k].shape == b[k].shape,
{
    if a.dom() == b.dom() && forall|k: Seq<char>| #[trigger]
        a.dom().contains(k) ==> a[k].dtype == b[k].dtype && a[k].shape == b[k].shape {
        assert(columns(a) =~= columns(b));
    }
    if columns(a) == columns(b) {
        assert(columns(a).dom() =~= a.dom());
        assert(columns(b).dom() =~= b.dom());
        assert forall|k: Seq<char>| #[trigger] a.dom().contains(k) implies a[k].dtype == b[k].dtype
            && a[k].shape == b[k].shape by {
            assert(columns(a)[k] == columns(b)[k]);
        }
    }
}

/// A composer that is opened is for the run of its start document and knows no stream. A stream that
/// is described is known from then on, and its events are numbered from one and refer to its
/// descriptor.
pub proof fn law_events_are_numbered_from_one(
    start: &RunStart,
    b: RunBundle,
    a: &mut RunBundle,
    name: &str,
    keys: StrMap<DataKey>,
    config: StrMap<Configuration>,
    hints: Option<StrMap<PerObjectHint>>,
    objects: StrMap<Vec<String>>,
    t0: Double,
    d: (EventDescriptor, bool),
    c: &mut RunBundle,
    data1: StrMap<Json>,
    stamps1: StrMap<Double>,
    t1: Double,
    e1: Option<Event>,
    f: &mut RunBundle,
    data2: StrMap<Json>,
    stamps2: StrMap<Double>,
    t2: Double,
    e2: Option<Event>,
    uid: Option<String>,
)
    requires
        call_ensures(RunBundle::open, (start,), b),
        *old(a) == b,
        call_ensures(RunBundle::descriptor, (a, name, keys, config, hints, objects, t0), d),
        *old(c) == *final(a),
        call_ensures(RunBundle::event, (c, name, data1, stamps1, t1), e1),
        *old(f) == *final(c),
        call_ensures(RunBundle::event, (f, name, data2, stamps2, t2), e2),
        call_ensures(RunBundle::descriptor_uid_for, (final(f), name), uid),
    ensures
        d.1,
        d.0.run_start@ == start.uid@,
        d.0.name matches Some(n) && n@ == name@,
        d.0.data_keys == keys && d.0.configuration == config && d.0.hints == hints
            && d.0.object_keys == objects && d.0.time == t0,
        e1 matches Some(e) && e.seq_num == 1 && e.descriptor@ == d.0.uid@ && e.data == data1
            && e.timestamps == stamps1 && e.time == t1,
        e2 matches Some(e) && e.seq_num == 2 && e.descriptor@ == d.0.uid@ && e.data == data2
            && e.timestamps == stamps2 && e.time == t2,
        uid matches Some(u) && u@ == d.0.uid@,
{
}

/// A start document holds what it is given and a fresh UID.
pub proof fn law_start_holds_what_it_is_given(
    scan_id: Option<u64>,
    hints: Option<Hints>,
    time: Double,
    s: RunStart,
)
    requires
        call_ensures(RunBundle::start, (scan_id, hints, time), s),
    ensures
        s.scan_id == scan_id && s.hints == hints && s.time == time,
        s.uid@.len() == 36,
        s.extra@.dom() =~= Set::empty(),
{
    reveal(is_uid);
}

} // verus!
