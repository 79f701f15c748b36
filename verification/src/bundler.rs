//! Collects the readings of one run into events, and emits descriptors as streams appear.

use vstd::prelude::*;
use vstd::string::*;

use crate::compose::{descriptor_composed, event_composed, is_uid, BundleView, RunBundle};
use crate::documents::{
    copy_strings, Configuration, ConfigurationView, DataKey, DataKeyView, Document, Event,
    EventDescriptor, PerObjectHint, PerObjectHintView,
};
use crate::error::{is_plan_error, CirrusError};
use crate::reading::{ReadingValue, ReadingView};
use crate::strmap::StrMap;
use crate::value::{Double, Duplicate, Json, JsonView};

verus! {

/// State of one open event bundle, between `create` and `save` or `drop_bundle`.
#[derive(Debug)]
struct OpenBundle {
    stream_name: String,
    readings: StrMap<ReadingValue>,
}

/// What is known of an open event bundle.
pub struct OpenView {
    /// Stream that the bundle will be saved to.
    pub stream_name: Seq<char>,
    /// Readings collected so far.
    pub readings: Map<Seq<char>, ReadingView>,
}

/// Per-run bundler.
#[derive(Debug)]
pub struct RunBundler {
    bundle: RunBundle,
    descriptors: StrMap<String>,
    stream_data_keys: StrMap<StrMap<DataKey>>,
    open: Option<OpenBundle>,
    pending_config: StrMap<Configuration>,
    pending_hints: Option<StrMap<PerObjectHint>>,
    pending_object_keys: StrMap<Vec<String>>,
}

/// What a [`RunBundler`] stands for.
pub struct BundlerView {
    /// The composer of the run.
    pub bundle: BundleView,
    /// Descriptor UID of each stream that was described.
    pub descriptors: Map<Seq<char>, Seq<char>>,
    /// Data keys collected per stream.
    pub stream_data_keys: Map<Seq<char>, Map<Seq<char>, DataKeyView>>,
    /// The open event bundle.
    pub open: Option<OpenView>,
    /// Configuration for the next descriptor.
    pub pending_config: Map<Seq<char>, ConfigurationView>,
    /// Hints for the next descriptor.
    pub pending_hints: Option<Map<Seq<char>, PerObjectHintView>>,
    /// Object-to-fields mapping for the next descriptor.
    pub pending_object_keys: Map<Seq<char>, Seq<Seq<char>>>,
}

impl View for RunBundler {
    type V = BundlerView;

    closed spec fn view(&self) -> BundlerView {
        BundlerView {
            bundle: self.bundle@,
            descriptors: self.descriptors@,
            stream_data_keys: self.stream_data_keys@,
            open: match self.open {
                Some(b) => Some(
                    OpenView { stream_name: b.stream_name@, readings: b.readings@ },
                ),
                None => None,
            },
            pending_config: self.pending_config@,
            pending_hints: match self.pending_hints {
                Some(h) => Some(h@),
                None => None,
            },
            pending_object_keys: self.pending_object_keys@,
        }
    }
}

/// A bundler for the composer `b` that has seen nothing yet.
pub open spec fn fresh_bundler(b: BundleView) -> BundlerView {
    BundlerView {
        bundle: b,
        descriptors: Map::empty(),
        stream_data_keys: Map::empty(),
        open: None,
        pending_config: Map::empty(),
        pending_hints: None,
        pending_object_keys: Map::empty(),
    }
}

impl BundlerView {
    /// The data keys collected for `stream` so far.
    pub open spec fn keys_of(self, stream: Seq<char>) -> Map<Seq<char>, DataKeyView> {
        if self.stream_data_keys.dom().contains(stream) {
            self.stream_data_keys[stream]
        } else {
            Map::empty()
        }
    }

    /// The UID of the descriptor that `stream` was described by, unless it is empty.
    pub open spec fn described(self, stream: Seq<char>) -> Option<Seq<char>> {
        if self.descriptors.dom().contains(stream) && self.descriptors[stream].len() > 0 {
            Some(self.descriptors[stream])
        } else {
            None
        }
    }

    /// The view after the readings of one device joined the open bundle.
    pub open spec fn with_readings(
        self,
        readings: Map<Seq<char>, ReadingView>,
        data_keys: Map<Seq<char>, DataKeyView>,
        object_name: Option<Seq<char>>,
        hint_fields: Option<Seq<Seq<char>>>,
    ) -> BundlerView
        recommends
            self.open is Some,
    {
        let open = self.open->0;
        let stream = open.stream_name;
        let next = BundlerView {
            open: Some(
                OpenView {
                    readings: open.readings.union_prefer_right(readings),
                    ..open
                },
            ),
            stream_data_keys: self.stream_data_keys.insert(
                stream,
                self.keys_of(stream).union_prefer_right(data_keys),
            ),
            ..self
        };
        match (object_name, hint_fields) {
            (Some(obj), Some(fields)) => {
                let hints = match self.pending_hints {
                    Some(h) => h,
                    None => Map::empty(),
                };
                let class = if hints.dom().contains(obj) {
                    hints[obj].NX_class
                } else {
                    None
                };
                BundlerView {
                    pending_object_keys: self.pending_object_keys.insert(obj, fields),
                    pending_hints: Some(
                        hints.insert(
                            obj,
                            PerObjectHintView { fields: Some(fields), NX_class: class },
                        ),
                    ),
                    ..next
                }
            },
            _ => next,
        }
    }

    /// The view once the open bundle is closed.
    pub open spec fn closed_bundle(self) -> BundlerView {
        BundlerView { open: None, ..self }
    }

    /// A stream is described exactly where it is declared in the composer, and no descriptor UID
    /// is empty.
    pub open spec fn consistent(self) -> bool {
        &&& forall|k: Seq<char>| #[trigger]
            self.descriptors.dom().contains(k) ==> self.bundle.streams.dom().contains(k)
                && self.descriptors[k].len() > 0
        &&& forall|k: Seq<char>| #[trigger]
            self.bundle.streams.dom().contains(k) ==> self.descriptors.dom().contains(k)
                && self.bundle.streams[k].descriptor_uid.len() > 0
    }

    /// Every declared stream is described under the descriptor UID that its events refer to.
    pub open spec fn agrees(self) -> bool {
        forall|k: Seq<char>| #[trigger]
            self.bundle.streams.dom().contains(k) ==> self.descriptors.dom().contains(k)
                && self.descriptors[k] == self.bundle.streams[k].descriptor_uid
    }

    /// Whether declaring `stream` with these data keys repeats its layout or is its first
    /// declaration.
    pub open spec fn keeps_layout(
        self,
        stream: Seq<char>,
        keys: Map<Seq<char>, DataKeyView>,
    ) -> bool {
        self.bundle.streams.dom().contains(stream) ==> self.bundle.declared_as(stream, keys)
    }
}

/// The values of a set of readings.
pub open spec fn values_of(r: Map<Seq<char>, ReadingView>) -> Map<Seq<char>, JsonView> {
    r.map_values(|v: ReadingView| v.value)
}

/// The timestamps of a set of readings.
pub open spec fn timestamps_of(r: Map<Seq<char>, ReadingView>) -> Map<Seq<char>, Double> {
    r.map_values(|v: ReadingView| v.timestamp)
}

/// What describing `stream` at its first save leaves: the descriptor and the view after it.
pub open spec fn described_at_save(
    before: BundlerView,
    after: BundlerView,
    stream: Seq<char>,
    d: EventDescriptor,
    time: Double,
) -> bool {
    &&& descriptor_composed(before.bundle, after.bundle, stream, d)
    &&& d.time == time
    &&& d.data_keys@ == before.keys_of(stream)
    &&& d.configuration@ == before.pending_config
    &&& d.object_keys@ == before.pending_object_keys
    &&& match d.hints {
        Some(h) => before.pending_hints == Some(h@),
        None => before.pending_hints is None,
    }
    &&& after == BundlerView {
        bundle: after.bundle,
        descriptors: before.descriptors.insert(stream, d.uid@),
        pending_config: Map::empty(),
        pending_hints: None,
        pending_object_keys: Map::empty(),
        ..before
    }
}

/// What saving `open` gives: the event and the view after it.
pub open spec fn event_saved(
    before: BundlerView,
    after: BundlerView,
    open: OpenView,
    e: Event,
    time: Double,
) -> bool {
    &&& event_composed(before.bundle, after.bundle, open.stream_name, e)
    &&& e.time == time
    &&& e.data@ == values_of(open.readings)
    &&& e.timestamps@ == timestamps_of(open.readings)
    &&& after == BundlerView { bundle: after.bundle, ..before }
}

/// What `save` gives on a bundler with an open bundle.
pub open spec fn saved(
    before: BundlerView,
    after: BundlerView,
    docs: Seq<Document>,
    time: Double,
) -> bool
    recommends
        before.open is Some,
{
    let open = before.open->0;
    let closed = before.closed_bundle();
    if before.described(open.stream_name) is Some {
        &&& docs.len() == 1
        &&& docs[0] matches Document::Event(e) && event_saved(closed, after, open, e, time)
    } else {
        &&& docs.len() == 2
        &&& docs[0] matches Document::Descriptor(d) && docs[1] matches Document::Event(e)
            && exists|mid: BundlerView|
            {
                &&& #[trigger] described_at_save(closed, mid, open.stream_name, d, time)
                &&& event_saved(mid, after, open, e, time)
            }
    }
}

/// Splits readings into their values and their timestamps.
pub(crate) fn split_readings(readings: StrMap<ReadingValue>) -> (r: (StrMap<Json>, StrMap<Double>))
    ensures
        r.0@ == values_of(readings@),
        r.1@ == timestamps_of(readings@),
{
    let ghost all = readings@;
    let mut left = readings;
    let mut data: StrMap<Json> = StrMap::new();
    let mut timestamps: StrMap<Double> = StrMap::new();
    proof {
        assert(data@.union_prefer_right(values_of(left@)) =~= values_of(all));
        assert(timestamps@.union_prefer_right(timestamps_of(left@)) =~= timestamps_of(all));
    }
    loop
        invariant
            data@.union_prefer_right(values_of(left@)) == values_of(all),
            timestamps@.union_prefer_right(timestamps_of(left@)) == timestamps_of(all),
        ensures
            data@ == values_of(all),
            timestamps@ == timestamps_of(all),
        decreases left.pairs().len(),
    {
        let ghost before = left@;
        let ghost data_before = data@;
        let ghost stamps_before = timestamps@;
        match left.pop() {
            None => {
                proof {
                    assert(data@.union_prefer_right(values_of(left@)) =~= data@);
                    assert(timestamps@.union_prefer_right(timestamps_of(left@)) =~= timestamps@);
                }
                break;
            },
            Some((k, r)) => {
                data.insert(k.clone(), r.value);
                timestamps.insert(k, r.timestamp);
                proof {
                    assert(data@.union_prefer_right(values_of(left@))
                        =~= data_before.union_prefer_right(values_of(before)));
                    assert(timestamps@.union_prefer_right(timestamps_of(left@))
                        =~= stamps_before.union_prefer_right(timestamps_of(before)));
                }
            },
        }
    }
    (data, timestamps)
}

impl RunBundler {
    /// Builds a bundler over the composer of an opened run.
    pub fn new(bundle: RunBundle) -> (b: Self)
        ensures
            b@ == fresh_bundler(bundle@),
    {
        RunBundler {
            bundle,
            descriptors: StrMap::new(),
            stream_data_keys: StrMap::new(),
            open: None,
            pending_config: StrMap::new(),
            pending_hints: None,
            pending_object_keys: StrMap::new(),
        }
    }

    /// The run-start UID.
    pub fn start_uid(&self) -> (uid: &str)
        ensures
            uid@ == self@.bundle.start_uid,
    {
        self.bundle.start_uid()
    }

    /// Begins a new event bundle for `stream_name`.
    pub fn create(&mut self, stream_name: String) -> (r: Result<(), CirrusError>)
        ensures
            match r {
                Ok(()) => old(self)@.open is None && final(self)@ == (BundlerView {
                    open: Some(OpenView { stream_name: stream_name@, readings: Map::empty() }),
                    ..old(self)@
                }),
                Err(e) => old(self)@.open is Some && final(self)@ == old(self)@ && is_plan_error(
                    e,
                    "create called while a previous bundle is still open"@,
                ),
            },
    {
        if self.open.is_some() {
            return Err(
                CirrusError::plan("create called while a previous bundle is still open"),
            );
        }
        self.open = Some(OpenBundle { stream_name, readings: StrMap::new() });
        Ok(())
    }

    /// Adds the readings of one device to the open bundle.
    pub fn add_readings(
        &mut self,
        readings: StrMap<ReadingValue>,
        data_keys: StrMap<DataKey>,
        object_name: Option<String>,
        hint_fields: Option<Vec<String>>,
    ) -> (r: Result<(), CirrusError>)
        ensures
            match r {
                Ok(()) => old(self)@.open is Some && final(self)@ == old(self)@.with_readings(
                    readings@,
                    data_keys@,
                    object_name.deep_view(),
                    hint_fields.deep_view(),
                ),
                Err(e) => old(self)@.open is None && final(self)@ == old(self)@ && is_plan_error(
                    e,
                    "read with no open bundle"@,
                ),
            },
    {
        let mut bundle = match self.open.take() {
            Some(b) => b,
            None => {
                return Err(CirrusError::plan("read with no open bundle"));
            },
        };
        bundle.readings.extend(readings);
        let mut keys = match self.stream_data_keys.remove(&bundle.stream_name) {
            Some(k) => k,
            None => StrMap::new(),
        };
        keys.extend(data_keys);
        self.stream_data_keys.insert(bundle.stream_name.clone(), keys);
        self.open = Some(bundle);
        match (object_name, hint_fields) {
            (Some(obj), Some(fields)) => {
                self.pending_object_keys.insert(obj.clone(), copy_strings(&fields));
                let mut hints = match self.pending_hints.take() {
                    Some(h) => h,
                    None => StrMap::new(),
                };
                let class = match hints.remove(&obj) {
                    Some(h) => h.NX_class,
                    None => None,
                };
                hints.insert(obj, PerObjectHint { fields: Some(fields), NX_class: class });
                self.pending_hints = Some(hints);
            },
            _ => {},
        }
        proof {
            let want = old(self)@.with_readings(
                readings@,
                data_keys@,
                object_name.deep_view(),
                hint_fields.deep_view(),
            );
            assert(self@.stream_data_keys =~= want.stream_data_keys);
            assert(self@.pending_object_keys =~= want.pending_object_keys);
            if want.pending_hints is Some {
                assert(self@.pending_hints->0 =~= want.pending_hints->0);
            }
        }
        Ok(())
    }

    /// Saves the open bundle. Emits a descriptor on the first save of a stream, then an
    /// event.
    pub fn save(&mut self, time: Double) -> (r: Result<Vec<Document>, CirrusError>)
        requires
            old(self)@.bundle.room(1),
        ensures
            match r {
                Ok(docs) => old(self)@.open is Some && saved(
                    old(self)@,
                    final(self)@,
                    docs@,
                    time,
                ),
                Err(e) => match old(self)@.open {
                    None => is_plan_error(e, "save with no open bundle"@) && final(self)@
                        == old(self)@,
                    Some(open) => {
                        &&& is_plan_error(e, "event for unknown stream"@)
                        &&& old(self)@.described(open.stream_name) is Some
                        &&& !old(self)@.bundle.streams.dom().contains(open.stream_name)
                        &&& final(self)@ == old(self)@.closed_bundle()
                    },
                },
            },
    {
        let bundle = match self.open.take() {
            Some(b) => b,
            None => {
                return Err(CirrusError::plan("save with no open bundle"));
            },
        };
        let ghost open = old(self)@.open->0;
        let ghost closed = self@;
        let mut out: Vec<Document> = Vec::new();
        let stream_name = bundle.stream_name;
        let needs_descriptor = match self.descriptors.get(&stream_name) {
            Some(uid) => uid.as_str().is_empty(),
            None => true,
        };
        if needs_descriptor {
            let data_keys = match self.stream_data_keys.get(&stream_name) {
                Some(k) => k.duplicate(),
                None => StrMap::new(),
            };
            let mut config: StrMap<Configuration> = StrMap::new();
            std::mem::swap(&mut config, &mut self.pending_config);
            let hints = self.pending_hints.take();
            let mut object_keys: StrMap<Vec<String>> = StrMap::new();
            std::mem::swap(&mut object_keys, &mut self.pending_object_keys);
            let (descriptor, _new) = self.bundle.descriptor(
                &stream_name,
                data_keys,
                config,
                hints,
                object_keys,
                time,
            );
            self.descriptors.insert(stream_name.clone(), descriptor.uid.clone());
            proof {
                assert(described_at_save(closed, self@, open.stream_name, descriptor, time));
            }
            out.push(Document::Descriptor(descriptor));
        }
        let ghost mid = self@;
        let (data, timestamps) = split_readings(bundle.readings);
        match self.bundle.event(&stream_name, data, timestamps, time) {
            None => Err(CirrusError::plan("event for unknown stream")),
            Some(e) => {
                proof {
                    assert(event_saved(mid, self@, open, e, time));
                }
                out.push(Document::Event(e));
                Ok(out)
            },
        }
    }

    /// Discards the open bundle.
    pub fn drop_bundle(&mut self) -> (r: Result<(), CirrusError>)
        ensures
            match r {
                Ok(()) => old(self)@.open is Some && final(self)@ == old(self)@.closed_bundle(),
                Err(e) => old(self)@.open is None && final(self)@ == old(self)@ && is_plan_error(
                    e,
                    "drop with no open bundle"@,
                ),
            },
    {
        if self.open.take().is_none() {
            return Err(CirrusError::plan("drop with no open bundle"));
        }
        Ok(())
    }

    /// Declares a stream ahead of its events (fly scans).
    pub fn declare_stream(
        &mut self,
        stream_name: String,
        data_keys: StrMap<DataKey>,
        time: Double,
    ) -> (d: EventDescriptor)
        ensures
            stream_declared(old(self)@, final(self)@, stream_name@, d, time),
            d.data_keys == data_keys,
    {
        let (descriptor, _new) = self.bundle.descriptor(
            &stream_name,
            data_keys,
            StrMap::new(),
            None,
            StrMap::new(),
            time,
        );
        self.descriptors.insert(stream_name, descriptor.uid.clone());
        descriptor
    }

    /// Composes an event on a declared stream, past the open bundle. `None` if the stream was
    /// never declared.
    pub fn event(
        &mut self,
        stream_name: &str,
        data: StrMap<Json>,
        timestamps: StrMap<Double>,
        time: Double,
    ) -> (event: Option<Event>)
        requires
            old(self)@.bundle.room(1),
        ensures
            match event {
                Some(e) => event_composed(
                    old(self)@.bundle,
                    final(self)@.bundle,
                    stream_name@,
                    e,
                ) && e.time == time && e.data == data && e.timestamps == timestamps
                    && final(self)@ == (BundlerView {
                    bundle: final(self)@.bundle,
                    ..old(self)@
                }),
                None => !old(self)@.bundle.streams.dom().contains(stream_name@)
                    && final(self)@ == old(self)@,
            },
    {
        self.bundle.event(stream_name, data, timestamps, time)
    }

    /// The underlying composer.
    pub fn compose(&self) -> (b: &RunBundle)
        ensures
            b@ == self@.bundle,
    {
        &self.bundle
    }

    /// Gives up the bundler and hands out its composer.
    pub fn into_bundle(self) -> (b: RunBundle)
        ensures
            b@ == self@.bundle,
    {
        self.bundle
    }

    /// The UID of the descriptor that a stream was described by.
    pub fn descriptor_uid(&self, stream_name: &str) -> (uid: Option<String>)
        ensures
            match uid {
                Some(u) => self@.described(stream_name@) == Some(u@),
                None => self@.described(stream_name@) is None,
            },
    {
        match self.descriptors.get(stream_name) {
            Some(u) => if u.as_str().is_empty() {
                None
            } else {
                Some(u.clone())
            },
            None => None,
        }
    }
}

/// What declaring `stream` gives: the descriptor and the view after it.
pub open spec fn stream_declared(
    before: BundlerView,
    after: BundlerView,
    stream: Seq<char>,
    d: EventDescriptor,
    time: Double,
) -> bool {
    &&& descriptor_composed(before.bundle, after.bundle, stream, d)
    &&& d.time == time
    &&& d.configuration@ == Map::<Seq<char>, ConfigurationView>::empty()
    &&& d.hints is None
    &&& d.object_keys@ == Map::<Seq<char>, Seq<Seq<char>>>::empty()
    &&& after == BundlerView {
        bundle: after.bundle,
        descriptors: before.descriptors.insert(stream, d.uid@),
        ..before
    }
}

/// A bundler that has seen nothing is consistent, and declaring or saving keeps it so: every
/// described stream is declared and every declared stream is described. The two sides hold the
/// same descriptor UID from the start, after every save, and after every declaration that does not
/// give a declared stream another layout.
pub proof fn law_consistency_is_kept(
    b: BundleView,
    before: BundlerView,
    after: BundlerView,
    stream: Seq<char>,
    d: EventDescriptor,
    docs: Seq<Document>,
    time: Double,
)
    requires
        before.consistent(),
        b.streams == Map::<Seq<char>, crate::compose::StreamView>::empty(),
    ensures
        fresh_bundler(b).consistent(),
        fresh_bundler(b).agrees(),
        stream_declared(before, after, stream, d, time) ==> after.consistent(),
        before.agrees() && before.keeps_layout(stream, d.data_keys@) && stream_declared(
            before,
            after,
            stream,
            d,
            time,
        ) ==> after.agrees(),
        before.open is Some && saved(before, after, docs, time) ==> after.consistent(),
        before.agrees() && before.open is Some && saved(before, after, docs, time)
            ==> after.agrees(),
{
    reveal(is_uid);
    if before.open is Some && saved(before, after, docs, time) {
        let open = before.open->0;
        if before.described(open.stream_name) is None {
            let d = docs[0]->Descriptor_0;
            let e = docs[1]->Event_0;
            let mid = choose|mid: BundlerView|
                {
                    &&& #[trigger] described_at_save(
                        before.closed_bundle(),
                        mid,
                        open.stream_name,
                        d,
                        time,
                    )
                    &&& event_saved(mid, after, open, e, time)
                };
            assert(mid.consistent());
            assert(after.consistent());
            assert(before.agrees() ==> mid.agrees());
        } else {
            assert(after.consistent());
        }
    }
}

/// On a consistent bundler with an open bundle, a save cannot fail: an event for an unknown
/// stream is impossible.
pub proof fn law_save_never_meets_unknown_stream(b: BundlerView)
    requires
        b.consistent(),
        b.open is Some,
    ensures
        b.described(b.open->0.stream_name) is Some ==> b.bundle.streams.dom().contains(
            b.open->0.stream_name,
        ),
{
}

/// A stream is described at most once by `save`: after one save, the next save on the same
/// stream emits the event alone.
pub proof fn law_described_once(
    before: BundlerView,
    after: BundlerView,
    docs: Seq<Document>,
    time: Double,
)
    requires
        before.consistent(),
        before.open is Some,
        saved(before, after, docs, time),
    ensures
        after.described(before.open->0.stream_name) is Some,
        after.open is None,
{
    reveal(is_uid);
    let open = before.open->0;
    if before.described(open.stream_name) is None {
        let d = docs[0]->Descriptor_0;
        let e = docs[1]->Event_0;
        let mid = choose|mid: BundlerView|
            {
                &&& #[trigger] described_at_save(
                    before.closed_bundle(),
                    mid,
                    open.stream_name,
                    d,
                    time,
                )
                &&& event_saved(mid, after, open, e, time)
            };
        assert(mid.descriptors[open.stream_name] == d.uid@);
    }
}

/// From its creation to its save a bundle collects what is read into it: the event of the save holds
/// for each field the value and the timestamp that were read last, for every field that was read and
/// for no other, and the bundle is closed.
pub proof fn law_saved_event_holds_what_was_read(
    a: &mut RunBundler,
    stream: String,
    created: Result<(), CirrusError>,
    b: &mut RunBundler,
    r1: StrMap<ReadingValue>,
    k1: StrMap<DataKey>,
    o1: Option<String>,
    h1: Option<Vec<String>>,
    first: Result<(), CirrusError>,
    c: &mut RunBundler,
    r2: StrMap<ReadingValue>,
    k2: StrMap<DataKey>,
    o2: Option<String>,
    h2: Option<Vec<String>>,
    second: Result<(), CirrusError>,
    d: &mut RunBundler,
    time: Double,
    docs: Result<Vec<Document>, CirrusError>,
    k: Seq<char>,
)
    requires
        old(a)@.open is None,
        old(a)@.consistent(),
        old(a)@.bundle.room(1),
        call_ensures(RunBundler::create, (a, stream), created),
        *old(b) == *final(a),
        call_ensures(RunBundler::add_readings, (b, r1, k1, o1, h1), first),
        *old(c) == *final(b),
        call_ensures(RunBundler::add_readings, (c, r2, k2, o2, h2), second),
        *old(d) == *final(c),
        call_ensures(RunBundler::save, (d, time), docs),
    ensures
        created is Ok && first is Ok && second is Ok && docs is Ok,
        final(d)@.open is None,
        match docs->Ok_0@.last() {
            Document::Event(e) => {
                &&& e.time == time
                &&& e.data@.dom().contains(k) <==> r1@.dom().contains(k) || r2@.dom().contains(k)
                &&& e.timestamps@.dom().contains(k) <==> e.data@.dom().contains(k)
                &&& r2@.dom().contains(k) ==> e.data@[k] == r2@[k].value && e.timestamps@[k]
                    == r2@[k].timestamp
                &&& r1@.dom().contains(k) && !r2@.dom().contains(k) ==> e.data@[k] == r1@[k].value
                    && e.timestamps@[k] == r1@[k].timestamp
            },
            _ => false,
        },
        old(a)@.described(stream@) is None ==> docs->Ok_0@.len() == 2 && (match docs->Ok_0@[0] {
            Document::Descriptor(x) => {
                &&& x.name matches Some(n) && n@ == stream@
                &&& k1@.dom().contains(k) || k2@.dom().contains(k) ==> x.data_keys@.dom().contains(k)
                &&& k2@.dom().contains(k) ==> x.data_keys@[k] == k2@[k]
                &&& k1@.dom().contains(k) && !k2@.dom().contains(k) ==> x.data_keys@[k] == k1@[k]
            },
            _ => false,
        }),
        old(a)@.described(stream@) is Some ==> docs->Ok_0@.len() == 1,
{
    let before = old(d)@;
    let open = before.open->0;
    if docs is Ok && before.described(open.stream_name) is None {
        let x = docs->Ok_0@[0]->Descriptor_0;
        let e = docs->Ok_0@[1]->Event_0;
        let mid = choose|mid: BundlerView|
            {
                &&& #[trigger] described_at_save(
                    before.closed_bundle(),
                    mid,
                    open.stream_name,
                    x,
                    time,
                )
                &&& event_saved(mid, final(d)@, open, e, time)
            };
        assert(described_at_save(before.closed_bundle(), mid, open.stream_name, x, time));
        assert(event_saved(mid, final(d)@, open, e, time));
    }
}

/// A bundle cannot be created while one is open, and neither read into, saved nor dropped while none
/// is; what is refused changes nothing. A dropped bundle is closed and nothing else changes.
pub proof fn law_bundle_operations_need_their_bundle(
    a: &mut RunBundler,
    stream: String,
    created: Result<(), CirrusError>,
    b: &mut RunBundler,
    r: StrMap<ReadingValue>,
    keys: StrMap<DataKey>,
    obj: Option<String>,
    hints: Option<Vec<String>>,
    read: Result<(), CirrusError>,
    c: &mut RunBundler,
    dropped: Result<(), CirrusError>,
)
    requires
        call_ensures(RunBundler::create, (a, stream), created),
        call_ensures(RunBundler::add_readings, (b, r, keys, obj, hints), read),
        call_ensures(RunBundler::drop_bundle, (c,), dropped),
    ensures
        created is Ok <==> old(a)@.open is None,
        created is Err ==> final(a)@ == old(a)@,
        read is Ok <==> old(b)@.open is Some,
        read is Err ==> final(b)@ == old(b)@,
        dropped is Ok <==> old(c)@.open is Some,
        final(c)@.open is None,
        final(c)@.bundle == old(c)@.bundle,
        final(c)@.stream_data_keys == old(c)@.stream_data_keys,
{
}

/// An event past the open bundle holds what it is given and goes to the stream that is named, if
/// that was declared; the open bundle stays as it is.
pub proof fn law_event_past_the_bundle(
    b: &mut RunBundler,
    stream: &str,
    data: StrMap<Json>,
    stamps: StrMap<Double>,
    time: Double,
    event: Option<Event>,
)
    requires
        call_ensures(RunBundler::event, (b, stream, data, stamps, time), event),
        old(b)@.bundle.room(1),
    ensures
        event is Some <==> old(b)@.bundle.streams.dom().contains(stream@),
        event matches Some(e) ==> {
            &&& e.data == data && e.timestamps == stamps && e.time == time
            &&& e.descriptor@ == old(b)@.bundle.streams[stream@].descriptor_uid
            &&& e.seq_num == old(b)@.bundle.streams[stream@].seq_num + 1
            &&& final(b)@.bundle.streams[stream@].seq_num == e.seq_num
        },
        final(b)@.open == old(b)@.open,
        final(b)@.descriptors == old(b)@.descriptors,
{
}

} // verus!
