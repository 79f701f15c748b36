//! Detectors that are composed of an arming half and a writing half.

use vstd::prelude::*;
use vstd::string::*;

use crate::device::{
    CollectableObj, CollectedRow, FlyableObj, NamedObj, ReadableObj, StageableObj, TriggerableObj,
};
use crate::documents::{plain_key, DataKey, DataKeyView, Dtype, StreamDatum, StreamResource};
use crate::error::{error_text, CirrusError, Span};
use crate::reading::{ReadingValue, ReadingView, TypedReading};
use crate::signal::plain_reading;
use crate::status::{Status, StatusError, StatusOutcome, StatusView};
use crate::strmap::StrMap;
use crate::text::join2;
use crate::value::{Double, Json, JsonView};

verus! {

/// What a detector is to be prepared for.
#[derive(Copy, Clone, Debug, PartialEq, Eq, Structural)]
pub struct TriggerInfo {
    /// Number of frames.
    pub number: u32,
}

/// A document about bulk data.
#[derive(Debug)]
pub enum StreamAsset {
    /// Where the data are.
    Resource(StreamResource),
    /// Which part of them has been written.
    Datum(StreamDatum),
}

/// The arming half of a detector. A half states for itself what each of its operations may come
/// to. The status of an arming may still be pending when it is given.
pub trait DetectorControl: Sized {
    /// Whether preparing `before` may give `r` and leave `after`.
    spec fn prepares(
        before: Self,
        info: TriggerInfo,
        after: Self,
        r: Result<(), CirrusError>,
    ) -> bool;

    /// Whether arming `before` may give the status `s` and leave `after`.
    spec fn arms(before: Self, after: Self, s: StatusView) -> bool;

    /// Whether waiting for idle may give `r` and leave `after`.
    spec fn idles(before: Self, after: Self, r: Result<(), CirrusError>) -> bool;

    /// Whether disarming `before` may give `r` and leave `after`.
    spec fn disarms(before: Self, after: Self, r: Result<(), CirrusError>) -> bool;

    /// Time that the detector needs between exposures.
    fn deadtime(&self, exposure: Option<Span>) -> (d: Span);

    /// Prepares for a number of frames.
    fn prepare(&mut self, info: TriggerInfo) -> (r: Result<(), CirrusError>)
        ensures
            Self::prepares(*old(self), info, *final(self), r),
    ;

    /// Arms the detector.
    fn arm(&mut self) -> (s: Status)
        ensures
            Self::arms(*old(self), *final(self), s@),
    ;

    /// Waits until the detector is idle.
    fn wait_for_idle(&mut self) -> (r: Result<(), CirrusError>)
        ensures
            Self::idles(*old(self), *final(self), r),
    ;

    /// Disarms the detector.
    fn disarm(&mut self) -> (r: Result<(), CirrusError>)
        ensures
            Self::disarms(*old(self), *final(self), r),
    ;
}

/// The writing half of a detector, beside an arming half `C`, which keeps the number of frames.
/// A half states for itself what each of its operations may come to.
pub trait DetectorWriter<C>: Sized {
    /// Whether opening the writer may give `r`.
    spec fn opens(self, multiplier: u32, r: Result<StrMap<DataKey>, CirrusError>) -> bool;

    /// The number of frames written.
    spec fn written(self, control: C) -> u64;

    /// Whether `docs` tell of the frames up to `up_to`, where the writer goes from `before` to
    /// `after`.
    spec fn tells(before: Self, after: Self, up_to: u64, docs: Seq<StreamAsset>) -> bool;

    /// Whether closing `before` may give `r` and leave `after`.
    spec fn closes(before: Self, after: Self, r: Result<(), CirrusError>) -> bool;

    /// Opens the writer.
    fn open(&self, multiplier: u32) -> (r: Result<StrMap<DataKey>, CirrusError>)
        ensures
            self.opens(multiplier, r),
    ;

    /// The number of frames that was last announced to those who watch it.
    fn observe_indices_written(&self) -> (n: u64);

    /// The number of frames written.
    fn indices_written(&self, control: &C) -> (n: u64)
        ensures
            n == self.written(*control),
    ;

    /// The documents that tell of the frames up to `up_to`.
    fn collect_stream_docs(&mut self, up_to: u64) -> (docs: Vec<StreamAsset>)
        requires
            up_to < u64::MAX,
        ensures
            Self::tells(*old(self), *final(self), up_to, docs@),
    ;

    /// Closes the writer.
    fn close(&mut self) -> (r: Result<(), CirrusError>)
        ensures
            Self::closes(*old(self), *final(self), r),
    ;
}

/// How an operation ends that last waits for idle.
pub open spec fn idle_ends(idles: Result<(), CirrusError>, end: StatusOutcome) -> bool {
    match idles {
        Ok(()) => end == StatusOutcome::Success,
        Err(e) => {
            &&& end matches StatusOutcome::Failed(StatusError::Failed(s))
            &&& s@ == "wait_for_idle: "@ + error_text(e)
        },
    }
}

/// The status of an operation that last waited for idle.
pub fn idle_status(idle: Result<(), CirrusError>) -> (s: Status)
    ensures
        s@.outcome matches Some(end) && idle_ends(idle, end),
{
    match idle {
        Ok(()) => Status::done(),
        Err(e) => Status::fail(StatusError::Failed(join2("wait_for_idle: ", &e.describe()))),
    }
}

/// Whether a flight to `target` frames is still to be waited for, once `seen` frames have been
/// announced and while announcements go on.
pub fn still_flying(seen: u64, target: u64, announcing: bool) -> (yes: bool)
    ensures
        yes == (seen < target && announcing),
{
    seen < target && announcing
}

/// A detector composed of an arming half and a writing half.
#[derive(Debug)]
pub struct StandardDetector<C, W> {
    name: String,
    control: C,
    writer: W,
    cached_target: u64,
}

/// What a [`StandardDetector`] is made of.
pub struct DetectorView<C, W> {
    /// The name.
    pub name: Seq<char>,
    /// The arming half.
    pub control: C,
    /// The writing half.
    pub writer: W,
    /// The number of frames that a flight waits for.
    pub cached_target: u64,
}

impl<C, W> View for StandardDetector<C, W> {
    type V = DetectorView<C, W>;

    closed spec fn view(&self) -> DetectorView<C, W> {
        DetectorView {
            name: self.name@,
            control: self.control,
            writer: self.writer,
            cached_target: self.cached_target,
        }
    }
}

/// The reading of the number of frames.
pub open spec fn index_readings(name: Seq<char>, index: u64) -> Map<Seq<char>, ReadingView> {
    Map::<Seq<char>, ReadingView>::empty().insert(
        name + "_index"@,
        plain_reading(JsonView::Integer(index as int), Double { bits: 0 }),
    )
}

/// The description of the number of frames.
pub open spec fn index_key(name: Seq<char>) -> DataKeyView {
    plain_key(name, Dtype::Integer, seq![])
}

/// What a detector describes: what its writer gives, and the number of frames.
pub open spec fn detector_keys(
    name: Seq<char>,
    keys: Map<Seq<char>, DataKeyView>,
) -> Map<Seq<char>, DataKeyView> {
    keys.insert(name + "_index"@, index_key(name))
}

/// Whether describing a detector may give `r`: the writer is opened for one frame per trigger.
pub open spec fn described<C, W: DetectorWriter<C>>(
    name: Seq<char>,
    w: W,
    r: Result<StrMap<DataKey>, CirrusError>,
) -> bool {
    exists|opened: Result<StrMap<DataKey>, CirrusError>|
        {
            &&& #[trigger] w.opens(1, opened)
            &&& match opened {
                Ok(keys) => r matches Ok(m) && m@ == detector_keys(name, keys@),
                Err(e) => r == Err::<StrMap<DataKey>, CirrusError>(e),
            }
        }
}

/// Whether staging may give `r`: the writer is opened for one frame per trigger.
pub open spec fn staged<C, W: DetectorWriter<C>>(w: W, r: Result<(), CirrusError>) -> bool {
    exists|opened: Result<StrMap<DataKey>, CirrusError>|
        {
            &&& #[trigger] w.opens(1, opened)
            &&& match opened {
                Ok(_) => r == Ok::<(), CirrusError>(()),
                Err(e) => r == Err::<(), CirrusError>(e),
            }
        }
}

/// Whether unstaging may give `r` and leave `after`: the detector is disarmed, and the writer is
/// closed unless that failed.
pub open spec fn unstaged<C: DetectorControl, W: DetectorWriter<C>>(
    before: DetectorView<C, W>,
    after: DetectorView<C, W>,
    r: Result<(), CirrusError>,
) -> bool {
    &&& after == DetectorView { control: after.control, writer: after.writer, ..before }
    &&& exists|d: Result<(), CirrusError>|
        {
            &&& #[trigger] C::disarms(before.control, after.control, d)
            &&& if d is Err {
                r == d && after.writer == before.writer
            } else {
                W::closes(before.writer, after.writer, r)
            }
        }
}

/// Whether a wait for idle may end an operation in `end` and leave `after`.
pub open spec fn waited<C: DetectorControl>(before: C, after: C, end: StatusOutcome) -> bool {
    exists|r: Result<(), CirrusError>| #[trigger] C::idles(before, after, r) && idle_ends(r, end)
}

/// What a trigger does next.
#[derive(Debug)]
pub enum TriggerNext {
    /// Wait for the arming to end.
    AwaitArming,
    /// Wait until the detector is idle.
    AwaitIdle,
    /// Fail with the error of the arming.
    Fail(StatusError),
}

/// What a trigger does next once its arming stands as `armed`.
pub open spec fn after_arming(armed: Option<StatusOutcome>) -> TriggerNext {
    match armed {
        None => TriggerNext::AwaitArming,
        Some(StatusOutcome::Success) => TriggerNext::AwaitIdle,
        Some(StatusOutcome::Failed(e)) => TriggerNext::Fail(e),
    }
}

/// Says what a trigger does next once its arming stands as it does.
pub fn trigger_next(arming: &Status) -> (next: TriggerNext)
    ensures
        next == after_arming(arming@.outcome),
{
    match arming.poll() {
        None => TriggerNext::AwaitArming,
        Some(Ok(())) => TriggerNext::AwaitIdle,
        Some(Err(e)) => TriggerNext::Fail(e),
    }
}

/// Whether a trigger whose arming ended in `armed` may end in `end` and leave `after`: the detector
/// is waited for unless the arming failed.
pub open spec fn trigger_ends<C: DetectorControl>(
    before: C,
    after: C,
    armed: StatusOutcome,
    end: StatusOutcome,
) -> bool {
    match armed {
        StatusOutcome::Failed(e) => end == armed && after == before,
        StatusOutcome::Success => waited(before, after, end),
    }
}

/// Whether a trigger may give the status `s` and leave `after`: the detector is armed. While the
/// arming is pending, so is the trigger; once it has ended, the trigger ends as it calls for.
pub open spec fn triggered<C: DetectorControl>(before: C, after: C, s: StatusView) -> bool {
    exists|mid: C, armed: StatusView|
        {
            &&& #[trigger] C::arms(before, mid, armed)
            &&& match armed.outcome {
                None => s == armed && after == mid,
                Some(a) => s.outcome matches Some(end) && trigger_ends(mid, after, a, end),
            }
        }
}

impl<C: DetectorControl, W: DetectorWriter<C>> StandardDetector<C, W> {
    /// Builds a detector.
    pub fn new(name: &str, control: C, writer: W) -> (d: Self)
        ensures
            d@ == (DetectorView { name: name@, control, writer, cached_target: 0 }),
    {
        StandardDetector { name: name.to_owned(), control, writer, cached_target: 0 }
    }

    /// The writing half.
    pub fn writer(&self) -> (w: &W)
        ensures
            *w == self@.writer,
    {
        &self.writer
    }

    /// The arming half.
    pub fn control(&self) -> (c: &C)
        ensures
            *c == self@.control,
    {
        &self.control
    }

    /// Opens the writer for one frame per trigger.
    pub fn stage(&mut self) -> (r: Result<(), CirrusError>)
        ensures
            staged::<C, W>(old(self)@.writer, r),
            final(self)@ == old(self)@,
    {
        let opened = self.writer.open(1);
        let ghost keys = opened;
        assert(self@.writer.opens(1, keys));
        match opened {
            Ok(_) => Ok(()),
            Err(e) => Err(e),
        }
    }

    /// Disarms, then closes the writer.
    pub fn unstage(&mut self) -> (r: Result<(), CirrusError>)
        ensures
            unstaged(old(self)@, final(self)@, r),
    {
        let disarmed = self.control.disarm();
        assert(C::disarms(old(self)@.control, self@.control, disarmed));
        if disarmed.is_err() {
            return disarmed;
        }
        self.writer.close()
    }

    /// Arms and waits until the detector is idle. A pending arming is handed back as it is: once
    /// it has ended, `armed` goes on with its outcome.
    pub fn trigger(&mut self) -> (s: Status)
        ensures
            triggered(old(self)@.control, final(self)@.control, s@),
            final(self)@ == (DetectorView { control: final(self)@.control, ..old(self)@ }),
    {
        let arming = self.control.arm();
        assert(C::arms(old(self)@.control, self@.control, arming@));
        match trigger_next(&arming) {
            TriggerNext::AwaitArming => arming,
            TriggerNext::AwaitIdle => self.armed(StatusOutcome::Success),
            TriggerNext::Fail(e) => self.armed(StatusOutcome::Failed(e)),
        }
    }

    /// Goes on with a trigger whose arming has ended: waits until the detector is idle, unless the
    /// arming failed.
    pub fn armed(&mut self, outcome: StatusOutcome) -> (s: Status)
        ensures
            s@.outcome matches Some(end) && trigger_ends(
                old(self)@.control,
                final(self)@.control,
                outcome,
                end,
            ),
            final(self)@ == (DetectorView { control: final(self)@.control, ..old(self)@ }),
    {
        match outcome {
            StatusOutcome::Failed(e) => Status::fail(e),
            StatusOutcome::Success => {
                let idle = self.control.wait_for_idle();
                assert(C::idles(old(self)@.control, self@.control, idle));
                let ghost r = idle;
                let s = idle_status(idle);
                assert(idle_ends(r, s@.outcome->0));
                s
            },
        }
    }

    /// Arms the detector for a flight.
    pub fn kickoff(&mut self) -> (s: Status)
        ensures
            C::arms(old(self)@.control, final(self)@.control, s@),
            final(self)@ == (DetectorView { control: final(self)@.control, ..old(self)@ }),
    {
        self.control.arm()
    }

    /// The number of frames that a flight waits for.
    pub fn flight_target(&self) -> (n: u64)
        ensures
            n == self@.cached_target,
    {
        self.cached_target
    }

    /// Ends a flight whose frames have been waited for: waits until the detector is idle.
    pub fn complete(&mut self) -> (s: Status)
        ensures
            s@.outcome matches Some(end) && waited(
                old(self)@.control,
                final(self)@.control,
                end,
            ),
            final(self)@ == (DetectorView { control: final(self)@.control, ..old(self)@ }),
    {
        let idle = self.control.wait_for_idle();
        assert(C::idles(old(self)@.control, self@.control, idle));
        let ghost r = idle;
        let s = idle_status(idle);
        assert(idle_ends(r, s@.outcome->0));
        s
    }

    /// The number of frames written.
    pub fn get_index(&self) -> (r: Result<u64, CirrusError>)
        ensures
            r == Ok::<u64, CirrusError>(self@.writer.written(self@.control)),
    {
        Ok(self.writer.indices_written(&self.control))
    }

    /// The documents that tell of the frames up to `up_to`.
    pub fn collect_asset_docs(&mut self, up_to: u64) -> (docs: Vec<StreamAsset>)
        requires
            up_to < u64::MAX,
        ensures
            W::tells(old(self)@.writer, final(self)@.writer, up_to, docs@),
            final(self)@ == (DetectorView { writer: final(self)@.writer, ..old(self)@ }),
    {
        self.writer.collect_stream_docs(up_to)
    }
}

/// The keys of a writer that is opened.
pub fn open_writer<C, W: DetectorWriter<C>>(w: &W, multiplier: u32) -> (r: Result<
    StrMap<DataKey>,
    CirrusError,
>)
    ensures
        w.opens(multiplier, r),
{
    w.open(multiplier)
}

impl<C: DetectorControl, W: DetectorWriter<C>> NamedObj for StandardDetector<C, W> {
    open spec fn named(&self) -> Seq<char> {
        self@.name
    }

    fn name(&self) -> (n: &str) {
        &self.name
    }
}

impl<C: DetectorControl, W: DetectorWriter<C>> StageableObj for StandardDetector<C, W> {
    fn stage_dyn(&mut self) -> (r: Result<(), CirrusError>)
        ensures
            staged::<C, W>(old(self)@.writer, r),
            final(self)@ == old(self)@,
    {
        self.stage()
    }

    fn unstage_dyn(&mut self) -> (r: Result<(), CirrusError>)
        ensures
            unstaged(old(self)@, final(self)@, r),
    {
        self.unstage()
    }
}

impl<C: DetectorControl, W: DetectorWriter<C>> TriggerableObj for StandardDetector<C, W> {
    fn trigger_dyn(&mut self) -> (s: Status)
        ensures
            triggered(old(self)@.control, final(self)@.control, s@),
            final(self)@ == (DetectorView { control: final(self)@.control, ..old(self)@ }),
    {
        self.trigger()
    }
}

impl<C: DetectorControl, W: DetectorWriter<C>> FlyableObj for StandardDetector<C, W> {
    fn kickoff_dyn(&mut self) -> (s: Status)
        ensures
            C::arms(old(self)@.control, final(self)@.control, s@),
            final(self)@ == (DetectorView { control: final(self)@.control, ..old(self)@ }),
    {
        self.kickoff()
    }

    fn complete_dyn(&mut self) -> (s: Status)
        ensures
            s@.outcome matches Some(end) && waited(
                old(self)@.control,
                final(self)@.control,
                end,
            ),
            final(self)@ == (DetectorView { control: final(self)@.control, ..old(self)@ }),
    {
        self.complete()
    }
}

/// The one row that a detector collects: the number of frames, in the stream of its name.
pub open spec fn index_row(row: CollectedRow, name: Seq<char>, index: u64) -> bool {
    &&& row.stream@ == name
    &&& row.data@ == Map::<Seq<char>, JsonView>::empty().insert(
        name + "_index"@,
        JsonView::Integer(index as int),
    )
    &&& row.timestamps@ == Map::<Seq<char>, Double>::empty().insert(
        name + "_index"@,
        Double { bits: 0 },
    )
}

impl<C: DetectorControl, W: DetectorWriter<C>> StandardDetector<C, W> {
    /// Describes what the writer gives, and the number of frames.
    fn describe(&self) -> (r: Result<StrMap<DataKey>, CirrusError>)
        ensures
            described::<C, W>(self@.name, self@.writer, r),
    {
        let opened = self.writer.open(1);
        let ghost keys = opened;
        assert(self@.writer.opens(1, keys));
        match opened {
            Ok(keys) => {
                let mut keys = keys;
                keys.insert(
                    join2(&self.name, "_index"),
                    DataKey::plain(self.name.clone(), Dtype::Integer, Vec::new()),
                );
                Ok(keys)
            },
            Err(e) => Err(e),
        }
    }

    /// Collects the rows, once the documents of the frames up to `index` have been drained.
    pub fn collected(&self, index: u64) -> (rows: Vec<CollectedRow>)
        ensures
            rows@.len() == 1,
            index_row(rows@[0], self@.name, index),
    {
        let mut data: StrMap<Json> = StrMap::new();
        data.insert(join2(&self.name, "_index"), Json::UInt(index));
        let mut timestamps: StrMap<Double> = StrMap::new();
        timestamps.insert(join2(&self.name, "_index"), Double { bits: 0 });
        let mut rows: Vec<CollectedRow> = Vec::new();
        rows.push(CollectedRow { stream: self.name.clone(), data, timestamps });
        rows
    }
}

/// Everything that a detector reads, collects or hints at is described.
pub proof fn law_what_is_read_is_described<C, W: DetectorWriter<C>>(
    d: DetectorView<C, W>,
    index: u64,
    row: CollectedRow,
    r: Result<StrMap<DataKey>, CirrusError>,
)
    requires
        described::<C, W>(d.name, d.writer, r),
        r is Ok,
        index_row(row, d.name, index),
    ensures
        index_readings(d.name, index).dom().subset_of(r->Ok_0@.dom()),
        row.data@.dom().subset_of(r->Ok_0@.dom()),
        row.timestamps@.dom().subset_of(r->Ok_0@.dom()),
        r->Ok_0@.dom().contains(d.name + "_index"@),
        r->Ok_0@[d.name + "_index"@].dtype == Dtype::Integer,
{
}

impl<C: DetectorControl, W: DetectorWriter<C>> CollectableObj for StandardDetector<C, W> {
    fn describe_collect_dyn(&self) -> (r: Result<StrMap<StrMap<DataKey>>, CirrusError>)
        ensures
            exists|keys: Result<StrMap<DataKey>, CirrusError>|
                {
                    &&& #[trigger] described::<C, W>(self@.name, self@.writer, keys)
                    &&& match keys {
                        Ok(keys) => r matches Ok(m) && m@ == Map::<
                            Seq<char>,
                            Map<Seq<char>, DataKeyView>,
                        >::empty().insert(self@.name, keys@),
                        Err(e) => r == Err::<StrMap<StrMap<DataKey>>, CirrusError>(e),
                    }
                },
    {
        let described_keys = self.describe();
        let ghost keys = described_keys;
        assert(described::<C, W>(self@.name, self@.writer, keys));
        match described_keys {
            Ok(keys) => {
                let mut out: StrMap<StrMap<DataKey>> = StrMap::new();
                out.insert(self.name.clone(), keys);
                Ok(out)
            },
            Err(e) => Err(e),
        }
    }

    fn collect_dyn(&mut self) -> (r: Result<Vec<CollectedRow>, CirrusError>)
        ensures
            r is Ok,
            r->Ok_0@.len() == 1,
            index_row(
                r->Ok_0@[0],
                old(self)@.name,
                old(self)@.writer.written(old(self)@.control),
            ),
            final(self)@ == (DetectorView { writer: final(self)@.writer, ..old(self)@ }),
            old(self)@.writer.written(old(self)@.control) < u64::MAX ==> exists|
                docs: Seq<StreamAsset>,
            |
                W::tells(
                    old(self)@.writer,
                    final(self)@.writer,
                    old(self)@.writer.written(old(self)@.control),
                    docs,
                ),
    {
        let index = self.writer.indices_written(&self.control);
        if index < u64::MAX {
            let _docs = self.writer.collect_stream_docs(index);
        }
        Ok(self.collected(index))
    }
}

impl<C: DetectorControl, W: DetectorWriter<C>> ReadableObj for StandardDetector<C, W> {
    fn read_dyn(&self, now: Double) -> (r: Result<StrMap<ReadingValue>, CirrusError>)
        ensures
            r is Ok,
            r->Ok_0@ == index_readings(self@.name, self@.writer.written(self@.control)),
    {
        let index = self.writer.indices_written(&self.control);
        let mut out: StrMap<ReadingValue> = StrMap::new();
        out.insert(
            join2(&self.name, "_index"),
            TypedReading::new(Json::UInt(index), Double { bits: 0 }),
        );
        Ok(out)
    }

    fn describe_dyn(&self) -> (r: Result<StrMap<DataKey>, CirrusError>)
        ensures
            described::<C, W>(self@.name, self@.writer, r),
    {
        self.describe()
    }

    fn hint_fields(&self) -> (fields: Option<Vec<String>>)
        ensures
            fields.deep_view() == Some(seq![self@.name + "_index"@]),
    {
        let mut fields: Vec<String> = Vec::new();
        fields.push(join2(&self.name, "_index"));
        assert(fields.deep_view() =~= seq![self.name@ + "_index"@]);
        Some(fields)
    }
}

/// A trigger whose arming fails fails with the error of the arming, and one whose arming succeeds ends
/// as the wait for idle does: well where that succeeds, and in a failure where that fails. While the
/// arming is pending the trigger is.
pub proof fn law_trigger_ends_as_its_parts_do<C: DetectorControl>(
    before: C,
    after: C,
    s: StatusView,
    armed: Option<StatusOutcome>,
    idle: Result<(), CirrusError>,
)
    requires
        triggered(before, after, s),
        forall|mid: C, a: StatusView| #[trigger] C::arms(before, mid, a) ==> a.outcome == armed,
        forall|mid: C, end: C, r: Result<(), CirrusError>| #[trigger]
            C::idles(mid, end, r) ==> r == idle,
    ensures
        armed is None ==> s.outcome is None,
        armed matches Some(StatusOutcome::Failed(e)) ==> s.outcome == Some(StatusOutcome::Failed(e)),
        armed == Some(StatusOutcome::Success) && idle is Ok ==> s.outcome == Some(
            StatusOutcome::Success,
        ),
        armed == Some(StatusOutcome::Success) && idle is Err ==> s.outcome matches Some(
            StatusOutcome::Failed(_),
        ),
{
}

/// What a trigger does next goes by its arming alone: it waits while the arming is pending, waits for
/// idle once it succeeded, and fails with its error.
pub proof fn law_trigger_follows_its_arming(arming: Status, next: TriggerNext)
    requires
        call_ensures(trigger_next, (&arming,), next),
    ensures
        next is AwaitArming <==> arming@.outcome is None,
        next is AwaitIdle <==> arming@.outcome == Some(StatusOutcome::Success),
        arming@.outcome matches Some(StatusOutcome::Failed(e)) ==> next == TriggerNext::Fail(e),
{
}

/// A detector reads and collects its number of frames under its own index key, and nothing else; what
/// it collects goes to the stream of its name.
pub proof fn law_detector_tells_its_frames(name: Seq<char>, index: u64, row: CollectedRow)
    requires
        index_row(row, name, index),
    ensures
        row.stream@ == name,
        forall|k: Seq<char>| #[trigger] row.data@.dom().contains(k) <==> k == name + "_index"@,
        row.data@[name + "_index"@] == JsonView::Integer(index as int),
        forall|k: Seq<char>| #[trigger]
            row.timestamps@.dom().contains(k) <==> k == name + "_index"@,
        forall|k: Seq<char>| #[trigger]
            index_readings(name, index).dom().contains(k) <==> k == name + "_index"@,
        index_readings(name, index)[name + "_index"@].value == JsonView::Integer(index as int),
{
}

/// An unstaging disarms the detector first: where that fails, the failure is what comes of it, and the
/// writer stays open.
pub proof fn law_unstaging_disarms_first<C: DetectorControl, W: DetectorWriter<C>>(
    before: DetectorView<C, W>,
    after: DetectorView<C, W>,
    r: Result<(), CirrusError>,
    e: CirrusError,
)
    requires
        unstaged(before, after, r),
        forall|c: C, d: Result<(), CirrusError>| #[trigger]
            C::disarms(before.control, c, d) ==> d == Err::<(), CirrusError>(e),
    ensures
        r == Err::<(), CirrusError>(e),
        after.writer == before.writer,
{
}

} // verus!
