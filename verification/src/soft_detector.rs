//! Detectors that live in memory.

use std::sync::atomic::{AtomicU64, Ordering};
use std::sync::Arc;

use vstd::prelude::*;
use vstd::string::*;

use crate::compose::{is_uid, new_uid};
use crate::detector::{
    triggered, DetectorControl, DetectorWriter, StandardDetector, StreamAsset, TriggerInfo,
};
use crate::device::{NamedObj, ReadableObj};
use crate::documents::{
    plain_key, DataKey, DataKeyView, Dtype, StreamDatum, StreamRange, StreamResource,
};
use crate::error::{CirrusError, Span};
use crate::reading::{ReadingValue, ReadingView, TypedReading};
use crate::share::share;
use crate::signal::plain_reading;
use crate::status::{Status, StatusOutcome, StatusView};
use crate::strmap::StrMap;
use crate::text::{clone_opt, join2, join3};
use crate::value::{Double, Json, JsonView};

verus! {

/// A detector for step scans that counts by itself.
#[derive(Debug)]
pub struct SoftDetector {
    name: String,
    counts: u64,
}

/// The reading of a [`SoftDetector`].
pub open spec fn count_readings(name: Seq<char>, counts: u64, now: Double) -> Map<
    Seq<char>,
    ReadingView,
> {
    Map::<Seq<char>, ReadingView>::empty().insert(
        name + "_counts"@,
        plain_reading(JsonView::Integer(counts as int), now),
    )
}

/// The keys that describe a [`SoftDetector`].
pub open spec fn count_keys(name: Seq<char>) -> Map<Seq<char>, DataKeyView> {
    Map::<Seq<char>, DataKeyView>::empty().insert(
        name + "_counts"@,
        DataKeyView {
            dtype_numpy: Some("<i8"@),
            units: Some("counts"@),
            object_name: Some(name),
            ..plain_key("soft://"@ + name + "/counts"@, Dtype::Integer, seq![])
        },
    )
}

/// What a tick of a detector gives.
pub open spec fn ticked(before: SoftDetector, after: SoftDetector) -> bool {
    &&& after.count() == before.count().wrapping_add(1)
    &&& after.named() == before.named()
}

impl SoftDetector {
    /// The count.
    pub closed spec fn count(&self) -> u64 {
        self.counts
    }

    /// Builds a detector whose count is zero.
    pub fn new(name: &str) -> (d: Self)
        ensures
            d.named() == name@,
            d.count() == 0,
    {
        SoftDetector { name: name.to_owned(), counts: 0 }
    }

    /// Bumps the count, which starts over after its greatest value.
    pub fn tick(&mut self)
        ensures
            ticked(*old(self), *final(self)),
    {
        self.counts = self.counts.wrapping_add(1);
    }
}

impl NamedObj for SoftDetector {
    closed spec fn named(&self) -> Seq<char> {
        self.name@
    }

    fn name(&self) -> (n: &str) {
        &self.name
    }
}

impl ReadableObj for SoftDetector {
    fn read_dyn(&self, now: Double) -> (r: Result<StrMap<ReadingValue>, CirrusError>)
        ensures
            r is Ok,
            r->Ok_0@ == count_readings(self.named(), self.count(), now),
    {
        let mut out: StrMap<ReadingValue> = StrMap::new();
        out.insert(join2(&self.name, "_counts"), TypedReading::new(Json::UInt(self.counts), now));
        Ok(out)
    }

    fn describe_dyn(&self) -> (r: Result<StrMap<DataKey>, CirrusError>)
        ensures
            r is Ok,
            r->Ok_0@ == count_keys(self.named()),
    {
        let key = DataKey {
            dtype_numpy: Some("<i8".to_owned()),
            units: Some("counts".to_owned()),
            object_name: Some(self.name.clone()),
            ..DataKey::plain(
                join3("soft://", &self.name, "/counts"),
                Dtype::Integer,
                Vec::new(),
            )
        };
        let mut out: StrMap<DataKey> = StrMap::new();
        out.insert(join2(&self.name, "_counts"), key);
        Ok(out)
    }

    fn hint_fields(&self) -> (fields: Option<Vec<String>>)
        ensures
            fields.deep_view() == Some(seq![self.named() + "_counts"@]),
    {
        let mut fields: Vec<String> = Vec::new();
        fields.push(join2(&self.name, "_counts"));
        assert(fields.deep_view() =~= seq![self.name@ + "_counts"@]);
        Some(fields)
    }
}

/// An arming half in memory. Its count of frames also drives a writer beside it. The numbers are
/// published in counters that others can watch.
#[derive(Debug)]
pub struct SoftDetectorControl {
    deadtime: Span,
    arm_count: u64,
    target: u64,
    shared_count: Arc<AtomicU64>,
    shared_target: Arc<AtomicU64>,
}

/// Publishes a number in a counter.
fn publish(counter: &Arc<AtomicU64>, n: u64) {
    counter.store(n, Ordering::SeqCst);
}

/// What a [`SoftDetectorControl`] stands for.
pub struct ControlView {
    /// Time between exposures.
    pub deadtime: Span,
    /// Number of frames.
    pub arm_count: u64,
    /// Number of frames it was prepared for.
    pub target: u64,
    /// The counter in which the number of frames is published.
    pub shared_count: Arc<AtomicU64>,
    /// The counter in which the number of frames it was prepared for is published.
    pub shared_target: Arc<AtomicU64>,
}

impl View for SoftDetectorControl {
    type V = ControlView;

    closed spec fn view(&self) -> ControlView {
        ControlView {
            deadtime: self.deadtime,
            arm_count: self.arm_count,
            target: self.target,
            shared_count: self.shared_count,
            shared_target: self.shared_target,
        }
    }
}

impl SoftDetectorControl {
    /// Builds a half with a fixed time between exposures.
    pub fn new(deadtime: Span) -> (c: Self)
        ensures
            c@.deadtime == deadtime,
            c@.arm_count == 0,
            c@.target == 1,
    {
        SoftDetectorControl {
            deadtime,
            arm_count: 0,
            target: 1,
            shared_count: Arc::new(AtomicU64::new(0)),
            shared_target: Arc::new(AtomicU64::new(1)),
        }
    }

    /// The shared counter of frames, which counts arms and the bumps of the writer beside. It is
    /// one counter for the life of the half, to be watched: the half goes by its own count. That the
    /// counter holds the number of frames at every moment is not stated: the contents of an atomic
    /// are beyond what contracts can speak of.
    pub fn arm_count(&self) -> (c: Arc<AtomicU64>)
        ensures
            c == self@.shared_count,
    {
        share(&self.shared_count)
    }

    /// The shared number of frames that the detector was prepared for, as one counter for the life
    /// of the half. As with the count, its contents are not stated.
    pub fn target(&self) -> (c: Arc<AtomicU64>)
        ensures
            c == self@.shared_target,
    {
        share(&self.shared_target)
    }

    /// The half with one more frame.
    pub closed spec fn counted(self) -> SoftDetectorControl {
        SoftDetectorControl { arm_count: self.arm_count.wrapping_add(1), ..self }
    }
}

/// One more frame changes the count alone.
pub proof fn law_counted(c: SoftDetectorControl)
    ensures
        c.counted()@ == (ControlView { arm_count: c@.arm_count.wrapping_add(1), ..c@ }),
{
}

/// Triggering a detector in memory succeeds and counts one frame.
pub proof fn law_trigger_counts_a_frame(
    before: SoftDetectorControl,
    after: SoftDetectorControl,
    s: StatusView,
)
    requires
        triggered(before, after, s),
    ensures
        s.outcome == Some(StatusOutcome::Success),
        after@ == (ControlView { arm_count: before@.arm_count.wrapping_add(1), ..before@ }),
{
}

impl DetectorControl for SoftDetectorControl {
    open spec fn prepares(
        before: Self,
        info: TriggerInfo,
        after: Self,
        r: Result<(), CirrusError>,
    ) -> bool {
        r is Ok && after@ == (ControlView { target: info.number as u64, ..before@ })
    }

    open spec fn arms(before: Self, after: Self, s: StatusView) -> bool {
        s.outcome == Some(StatusOutcome::Success) && after == before.counted()
    }

    open spec fn idles(before: Self, after: Self, r: Result<(), CirrusError>) -> bool {
        r is Ok && after == before
    }

    open spec fn disarms(before: Self, after: Self, r: Result<(), CirrusError>) -> bool {
        r is Ok && after == before
    }

    fn deadtime(&self, exposure: Option<Span>) -> (d: Span)
        ensures
            d == self@.deadtime,
    {
        self.deadtime
    }

    fn prepare(&mut self, info: TriggerInfo) -> (r: Result<(), CirrusError>) {
        self.target = info.number as u64;
        publish(&self.shared_target, self.target);
        Ok(())
    }

    fn arm(&mut self) -> (s: Status)
        ensures
            final(self)@ == (ControlView {
                arm_count: old(self)@.arm_count.wrapping_add(1),
                ..old(self)@
            }),
    {
        self.arm_count = self.arm_count.wrapping_add(1);
        publish(&self.shared_count, self.arm_count);
        Status::done()
    }

    fn wait_for_idle(&mut self) -> (r: Result<(), CirrusError>) {
        Ok(())
    }

    fn disarm(&mut self) -> (r: Result<(), CirrusError>) {
        Ok(())
    }
}

/// A writing half in memory, which tells of the frames that the arming half beside it counts.
#[derive(Debug)]
pub struct SoftDetectorWriter {
    name: String,
    announced: u64,
    resource_emitted: Option<String>,
    last_emitted: u64,
    mimetype: String,
    uri: String,
    bound: Option<String>,
}

/// What a [`SoftDetectorWriter`] stands for.
pub struct WriterView {
    /// The name.
    pub name: Seq<char>,
    /// The number of frames that was last announced.
    pub announced: u64,
    /// UID of the resource, once it has been told of.
    pub resource: Option<Seq<char>>,
    /// The number of frames that have been told of.
    pub last_emitted: u64,
    /// UID of the run that the writer is bound to.
    pub bound: Option<Seq<char>>,
}

impl View for SoftDetectorWriter {
    type V = WriterView;

    closed spec fn view(&self) -> WriterView {
        WriterView {
            name: self.name@,
            announced: self.announced,
            resource: self.resource_emitted.deep_view(),
            last_emitted: self.last_emitted,
            bound: self.bound.deep_view(),
        }
    }
}

/// The keys that describe a [`SoftDetectorWriter`].
pub open spec fn image_keys(name: Seq<char>) -> Map<Seq<char>, DataKeyView> {
    Map::<Seq<char>, DataKeyView>::empty().insert(
        name + "_image"@,
        DataKeyView {
            dtype_numpy: Some("<f4"@),
            external: Some("STREAM:"@),
            object_name: Some(name),
            dims: Some(seq!["pixel"@]),
            ..plain_key("soft://"@ + name + "/image"@, Dtype::Number, seq![Some(1u64)])
        },
    )
}

/// The resource of a writer with the given name, bound to the given run.
pub open spec fn image_resource(
    r: StreamResource,
    name: Seq<char>,
    uid: Seq<char>,
    run: Option<Seq<char>>,
) -> bool {
    &&& r.uid@ == uid
    &&& r.data_key@ == name + "_image"@
    &&& r.mimetype@ == "application/x-cirrus-soft-frames"@
    &&& r.uri@ == "memory://soft-frames"@
    &&& r.parameters@ == Map::<Seq<char>, JsonView>::empty()
    &&& r.run_start.deep_view() == run
}

/// A datum for the frames from `from` up to `to`.
pub open spec fn image_datum(d: StreamDatum, resource: Seq<char>, from: u64, to: u64) -> bool {
    &&& is_uid(d.uid@)
    &&& d.stream_resource@ == resource
    &&& d.descriptor@ == Seq::<char>::empty()
    &&& d.indices == (StreamRange { start: from, stop: to })
    &&& d.seq_nums == (StreamRange { start: (from + 1) as u64, stop: (to + 1) as u64 })
}

/// What a writer tells of the frames up to `up_to`: the resource if it has not been told of
/// yet, then the frames that have not been told of yet, if there are any.
pub open spec fn told(before: WriterView, after: WriterView, up_to: u64, docs: Seq<StreamAsset>) -> bool {
    let first = before.resource is None;
    let more = up_to > before.last_emitted;
    let uid = after.resource->Some_0;
    &&& after.resource is Some
    &&& first ==> is_uid(uid)
    &&& after == (WriterView {
        resource: if first {
            Some(uid)
        } else {
            before.resource
        },
        last_emitted: if more {
            up_to
        } else {
            before.last_emitted
        },
        ..before
    })
    &&& docs.len() == (if first {
        1int
    } else {
        0int
    }) + (if more {
        1int
    } else {
        0int
    })
    &&& first ==> docs[0] is Resource && image_resource(
        docs[0]->Resource_0,
        before.name,
        uid,
        before.bound,
    )
    &&& more ==> docs[docs.len() - 1] is Datum && image_datum(
        docs[docs.len() - 1]->Datum_0,
        uid,
        before.last_emitted,
        up_to,
    )
}

impl SoftDetectorWriter {
    /// Labels never change.
    #[verifier::type_invariant]
    spec fn labelled(self) -> bool {
        &&& self.mimetype@ == "application/x-cirrus-soft-frames"@
        &&& self.uri@ == "memory://soft-frames"@
    }

    /// Builds a writer that has told of nothing.
    pub fn new(name: &str) -> (w: Self)
        ensures
            w@ == (WriterView {
                name: name@,
                announced: 0,
                resource: None,
                last_emitted: 0,
                bound: None,
            }),
    {
        SoftDetectorWriter {
            name: name.to_owned(),
            announced: 0,
            resource_emitted: None,
            last_emitted: 0,
            mimetype: "application/x-cirrus-soft-frames".to_owned(),
            uri: "memory://soft-frames".to_owned(),
            bound: None,
        }
    }

    /// Binds the writer to a run: the resource that it tells of from then on names the run.
    pub fn bind_to_run(&mut self, run_uid: &str)
        ensures
            final(self)@ == (WriterView { bound: Some(run_uid@), ..old(self)@ }),
    {
        proof {
            use_type_invariant(&*self);
        }
        self.bound = Some(run_uid.to_owned());
    }

    /// Counts one more frame in the arming half beside, and announces the new count.
    pub fn bump_index(&mut self, control: &mut SoftDetectorControl)
        requires
            old(control)@.arm_count < u64::MAX,
        ensures
            final(control)@ == (ControlView {
                arm_count: (old(control)@.arm_count + 1) as u64,
                ..old(control)@
            }),
            final(self)@ == (WriterView {
                announced: (old(control)@.arm_count + 1) as u64,
                ..old(self)@
            }),
    {
        proof {
            use_type_invariant(&*self);
        }
        control.arm_count = control.arm_count + 1;
        publish(&control.shared_count, control.arm_count);
        self.announced = control.arm_count;
    }
}

impl DetectorWriter<SoftDetectorControl> for SoftDetectorWriter {
    open spec fn opens(self, multiplier: u32, r: Result<StrMap<DataKey>, CirrusError>) -> bool {
        r matches Ok(keys) && keys@ == image_keys(self@.name)
    }

    open spec fn written(self, control: SoftDetectorControl) -> u64 {
        control@.arm_count
    }

    open spec fn tells(before: Self, after: Self, up_to: u64, docs: Seq<StreamAsset>) -> bool {
        told(before@, after@, up_to, docs)
    }

    open spec fn closes(before: Self, after: Self, r: Result<(), CirrusError>) -> bool {
        r is Ok && after == before
    }

    fn open(&self, multiplier: u32) -> (r: Result<StrMap<DataKey>, CirrusError>) {
        let mut shape: Vec<Option<u64>> = Vec::new();
        shape.push(Some(1));
        let mut dims: Vec<String> = Vec::new();
        dims.push("pixel".to_owned());
        assert(dims.deep_view() =~= seq!["pixel"@]);
        assert(shape@ =~= seq![Some(1u64)]);
        let key = DataKey {
            dtype_numpy: Some("<f4".to_owned()),
            external: Some("STREAM:".to_owned()),
            object_name: Some(self.name.clone()),
            dims: Some(dims),
            ..DataKey::plain(join3("soft://", &self.name, "/image"), Dtype::Number, shape)
        };
        let mut out: StrMap<DataKey> = StrMap::new();
        out.insert(join2(&self.name, "_image"), key);
        Ok(out)
    }

    fn observe_indices_written(&self) -> (n: u64)
        ensures
            n == self@.announced,
    {
        self.announced
    }

    fn indices_written(&self, control: &SoftDetectorControl) -> (n: u64) {
        control.arm_count
    }

    fn collect_stream_docs(&mut self, up_to: u64) -> (docs: Vec<StreamAsset>) {
        proof {
            use_type_invariant(&*self);
        }
        let mut docs: Vec<StreamAsset> = Vec::new();
        let resource_uid = match &self.resource_emitted {
            Some(uid) => uid.clone(),
            None => {
                let uid = new_uid();
                docs.push(
                    StreamAsset::Resource(
                        StreamResource {
                            uid: uid.clone(),
                            data_key: join2(&self.name, "_image"),
                            mimetype: self.mimetype.clone(),
                            uri: self.uri.clone(),
                            parameters: StrMap::new(),
                            run_start: clone_opt(&self.bound),
                        },
                    ),
                );
                uid
            },
        };
        self.resource_emitted = Some(resource_uid.clone());
        if up_to > self.last_emitted {
            docs.push(
                StreamAsset::Datum(
                    StreamDatum {
                        uid: new_uid(),
                        stream_resource: resource_uid,
                        descriptor: String::new(),
                        indices: StreamRange { start: self.last_emitted, stop: up_to },
                        seq_nums: StreamRange { start: self.last_emitted + 1, stop: up_to + 1 },
                    },
                ),
            );
            self.last_emitted = up_to;
        }
        docs
    }

    fn close(&mut self) -> (r: Result<(), CirrusError>) {
        Ok(())
    }
}

/// Two collections that follow each other tell of adjoining frames, number them without a gap,
/// and name one resource, which is told of at most once.
pub proof fn law_frames_adjoin(
    w0: WriterView,
    w1: WriterView,
    w2: WriterView,
    a: u64,
    b: u64,
    first: Seq<StreamAsset>,
    second: Seq<StreamAsset>,
)
    requires
        w0.last_emitted < a < b < u64::MAX,
        told(w0, w1, a, first),
        told(w1, w2, b, second),
    ensures
        second.len() == 1,
        second[0]->Datum_0.indices.start == first.last()->Datum_0.indices.stop,
        second[0]->Datum_0.seq_nums.start == first.last()->Datum_0.seq_nums.stop,
        second[0]->Datum_0.stream_resource@ == first.last()->Datum_0.stream_resource@,
        w2.resource == w1.resource,
{
}

/// Collecting again up to the same frame tells of nothing and changes nothing.
pub proof fn law_nothing_is_told_twice(
    w0: WriterView,
    w1: WriterView,
    w2: WriterView,
    up_to: u64,
    first: Seq<StreamAsset>,
    second: Seq<StreamAsset>,
)
    requires
        told(w0, w1, up_to, first),
        told(w1, w2, up_to, second),
    ensures
        second.len() == 0,
        w2 == w1,
{
}

/// A detector whose halves live in memory.
pub fn soft_detector(name: &str) -> (d: StandardDetector<SoftDetectorControl, SoftDetectorWriter>)
    ensures
        d@.name == name@,
        d@.control@.deadtime == (Span { secs: 0, nanos: 0 }),
        d@.control@.arm_count == 0,
        d@.control@.target == 1,
        d@.writer@ == (WriterView {
            name: name@,
            announced: 0,
            resource: None,
            last_emitted: 0,
            bound: None,
        }),
        d@.cached_target == 0,
{
    StandardDetector::new(
        name,
        SoftDetectorControl::new(Span { secs: 0, nanos: 0 }),
        SoftDetectorWriter::new(name),
    )
}

/// Each tick of a detector counts one more, and the detector reads its count as a whole number under
/// the key of its name, with the time of the reading.
pub proof fn law_ticks_are_counted(
    before: SoftDetector,
    after: SoftDetector,
    now: Double,
    r: Result<StrMap<ReadingValue>, CirrusError>,
)
    requires
        before.count() < u64::MAX,
        ticked(before, after),
        call_ensures(<SoftDetector as ReadableObj>::read_dyn, (&after, now), r),
    ensures
        r is Ok,
        forall|k: Seq<char>| #[trigger]
            r->Ok_0@.dom().contains(k) <==> k == before.named() + "_counts"@,
        r->Ok_0@[before.named() + "_counts"@].value == JsonView::Integer(before.count() + 1),
        r->Ok_0@[before.named() + "_counts"@].timestamp == now,
{
}

/// The first collection tells of the resource, with its key, its place and the run that the writer is
/// bound to, and then of the frames from the first up to the last that was asked for, numbered from
/// one.
pub proof fn law_first_collection_tells_of_all_frames(
    w0: WriterView,
    w1: WriterView,
    up_to: u64,
    docs: Seq<StreamAsset>,
)
    requires
        w0.resource is None,
        w0.last_emitted == 0,
        0 < up_to < u64::MAX,
        told(w0, w1, up_to, docs),
    ensures
        docs.len() == 2,
        docs[0] matches StreamAsset::Resource(r) && r.data_key@ == w0.name + "_image"@
            && r.run_start.deep_view() == w0.bound && w1.resource == Some(r.uid@),
        docs[1] matches StreamAsset::Datum(d) && d.stream_resource@ == docs[0]->Resource_0.uid@
            && d.indices.start == 0 && d.indices.stop == up_to && d.seq_nums.start == 1
            && d.seq_nums.stop == up_to + 1 && d.descriptor@.len() == 0,
        w1.last_emitted == up_to,
        w1.name == w0.name && w1.bound == w0.bound,
{
}

/// A detector in memory counts its triggers and its kickoffs, one frame each, and both succeed; what
/// it reads, how far it is and what it tells of go by that count.
pub proof fn law_soft_detector_counts_its_frames(
    d: &mut StandardDetector<SoftDetectorControl, SoftDetectorWriter>,
    s: Status,
    k: &mut StandardDetector<SoftDetectorControl, SoftDetectorWriter>,
    t: Status,
    n: Result<u64, CirrusError>,
    r: Result<StrMap<ReadingValue>, CirrusError>,
    now: Double,
)
    requires
        call_ensures(
            StandardDetector::<SoftDetectorControl, SoftDetectorWriter>::trigger,
            (d,),
            s,
        ),
        call_ensures(
            StandardDetector::<SoftDetectorControl, SoftDetectorWriter>::kickoff,
            (k,),
            t,
        ),
        call_ensures(
            StandardDetector::<SoftDetectorControl, SoftDetectorWriter>::get_index,
            (final(d),),
            n,
        ),
        call_ensures(
            <StandardDetector<SoftDetectorControl, SoftDetectorWriter> as ReadableObj>::read_dyn,
            (final(d), now),
            r,
        ),
        old(d)@.control@.arm_count < u64::MAX,
        old(k)@.control@.arm_count < u64::MAX,
    ensures
        s@.outcome == Some(StatusOutcome::Success),
        t@.outcome == Some(StatusOutcome::Success),
        n matches Ok(i) && i == old(d)@.control@.arm_count + 1,
        final(k)@.control@.arm_count == old(k)@.control@.arm_count + 1,
        r matches Ok(m) && m@.dom().contains(old(d)@.name + "_index"@) && m@[old(d)@.name
            + "_index"@].value == JsonView::Integer(old(d)@.control@.arm_count + 1),
        final(d)@.name == old(d)@.name,
        final(d)@.writer == old(d)@.writer,
        final(d)@.cached_target == old(d)@.cached_target,
        final(d)@.control@.target == old(d)@.control@.target,
{
    law_trigger_counts_a_frame(old(d)@.control, final(d)@.control, s@);
    law_counted(old(k)@.control);
}

/// A bound writer names the run in the resource that it tells of first; a bump counts one more frame
/// in the half beside and announces it.
pub proof fn law_writer_is_bound_to_its_run(
    w: &mut SoftDetectorWriter,
    run: &str,
    x: &mut SoftDetectorWriter,
    up_to: u64,
    docs: Vec<StreamAsset>,
    y: &mut SoftDetectorWriter,
    c: &mut SoftDetectorControl,
    n: u64,
)
    requires
        call_ensures(SoftDetectorWriter::bind_to_run, (w, run), ()),
        *old(x) == *final(w),
        old(w)@.resource is None,
        up_to < u64::MAX,
        call_ensures(
            <SoftDetectorWriter as DetectorWriter<SoftDetectorControl>>::collect_stream_docs,
            (x, up_to),
            docs,
        ),
        call_ensures(SoftDetectorWriter::bump_index, (y, c), ()),
        old(c)@.arm_count < u64::MAX,
        call_ensures(
            <SoftDetectorWriter as DetectorWriter<SoftDetectorControl>>::indices_written,
            (final(y), final(c)),
            n,
        ),
    ensures
        docs@.len() > 0,
        docs@[0] matches StreamAsset::Resource(r) && r.run_start.deep_view() == Some(run@)
            && r.data_key@ == old(w)@.name + "_image"@,
        n == old(c)@.arm_count + 1,
        final(y)@.announced == old(c)@.arm_count + 1,
        final(y)@.last_emitted == old(y)@.last_emitted,
        final(c)@.target == old(c)@.target,
{
}

/// A detector in memory starts with no frame, under its name, bound to no run, and is staged and
/// unstaged without fail.
pub proof fn law_soft_detector_starts_empty(
    name: &str,
    d: StandardDetector<SoftDetectorControl, SoftDetectorWriter>,
    e: &mut StandardDetector<SoftDetectorControl, SoftDetectorWriter>,
    r: Result<(), CirrusError>,
    f: &mut StandardDetector<SoftDetectorControl, SoftDetectorWriter>,
    u: Result<(), CirrusError>,
)
    requires
        call_ensures(soft_detector, (name,), d),
        call_ensures(
            StandardDetector::<SoftDetectorControl, SoftDetectorWriter>::stage,
            (e,),
            r,
        ),
        call_ensures(
            StandardDetector::<SoftDetectorControl, SoftDetectorWriter>::unstage,
            (f,),
            u,
        ),
    ensures
        d@.name == name@ && d@.writer@.name == name@,
        d@.control@.arm_count == 0 && d@.writer@.last_emitted == 0,
        d@.writer@.resource is None && d@.writer@.bound is None,
        r is Ok && final(e)@ == old(e)@,
        u is Ok && final(f)@.control@.arm_count == old(f)@.control@.arm_count,
{
}

} // verus!
